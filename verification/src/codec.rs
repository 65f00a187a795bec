//! The two directions of the document codec: building a document from a
//! graph, and restoring a graph from a document.
//!
//! Encoding materializes every node in index order, so node `k` takes
//! document id `k + 1`, then records every link whose endpoints resolve.
//! Decoding rebuilds each node's field state from the schema and the
//! document's positional widget values, and maps each link record's node ids
//! back to node indices. A document that names an unknown kind, carries
//! widget values that do not fit the schema, or links a node id that does
//! not exist is rejected whole: a partial load would silently corrupt the
//! graph.

use vstd::prelude::*;
use vstd::string::StringExecFns;
use crate::field::FieldV;
use crate::field::NodeField;
use crate::field::Real;
use crate::field::WidgetV;
use crate::field::WidgetValue;
use crate::graph::Graph;
use crate::graph::GraphV;
use crate::graph::Link;
use crate::graph::LinkType;
use crate::graph::LinkV;
use crate::graph::NodeInstance;
use crate::graph::NodeInstanceV;
use crate::graph::NodeType;
use crate::graph::REAL_ONE_BITS;
use crate::graph::nodes_view;
use crate::graph::links_view;
use crate::project::Node;
use crate::project::ProjNodeV;
use crate::project::avail_find;
use crate::project::avail_view;
use crate::schema::state_view;
use crate::workflow::LinkItemV;
use crate::workflow::VERSION_BITS;
use crate::workflow::WfInputV;
use crate::workflow::WfNodeV;
use crate::workflow::WfOutputV;
use crate::workflow::Workflow;
use crate::workflow::WorkflowNode;
use crate::workflow::WorkflowNodeInput;
use crate::workflow::WorkflowNodeOutput;
use crate::workflow::WorkflowV;
use crate::workflow::add_node_spec;
use crate::workflow::link_spec;
use crate::workflow::sat_add;
use crate::workflow::wf_find;

verus! {

/// The node kind whose value list historically needs one synthetic extra
/// entry the remote schema does not declare.
pub const PATCHED_KIND: &'static str = "KSampler";

/// The value the patched kind expects at the synthetic position.
pub const PATCHED_VALUE: &'static str = "fixed";

/// The widget values of a field state list, in order; fields that carry no
/// widget contribute nothing.
pub open spec fn widgets_of_state(state: Seq<(Seq<char>, FieldV)>) -> Seq<WidgetV>
    decreases state.len(),
{
    if state.len() == 0 {
        Seq::empty()
    } else {
        (match state[0].1.widget_spec() {
            Some(w) => seq![w],
            None => Seq::<WidgetV>::empty(),
        }) + widgets_of_state(state.drop_first())
    }
}

/// The known-quirk patch: one named node kind requires a synthetic extra
/// widget value at a fixed position that its schema does not declare. This
/// is a deliberate, narrowly scoped repair, not a general mechanism.
pub open spec fn patch_widgets(ty: Seq<char>, w: Seq<WidgetV>) -> Seq<WidgetV> {
    if ty == PATCHED_KIND@ && w.len() >= 1 {
        w.insert(1, WidgetV::TextVal(PATCHED_VALUE@))
    } else {
        w
    }
}

/// The inverse of the known-quirk patch, applied when reading a document.
pub open spec fn unpatch_widgets(ty: Seq<char>, w: Seq<WidgetV>) -> Seq<WidgetV> {
    if ty == PATCHED_KIND@ && w.len() >= 2 {
        w.remove(1)
    } else {
        w
    }
}

/// The document node record freshly built for one graph node before ids are
/// assigned: inputs and outputs from the schema, widget values from the
/// instance state, with the known-quirk patch applied.
pub open spec fn fresh_wf_node(meta: ProjNodeV, inst: NodeInstanceV) -> WfNodeV {
    WfNodeV {
        id: 0,
        ty: inst.ty,
        pos: inst.pos,
        order: 1,
        mode: 0,
        inputs: Seq::new(
            meta.inputs.len(),
            |k: int| WfInputV { name: meta.inputs[k].0, ty: meta.inputs[k].1, link: 0 },
        ),
        outputs: Seq::new(
            meta.outputs.len(),
            |k: int| WfOutputV {
                name: meta.outputs[k].0,
                ty: meta.outputs[k].1,
                links: Seq::empty(),
                slot_index: k as usize,
            },
        ),
        properties: Seq::empty(),
        widgets_values: patch_widgets(inst.ty, widgets_of_state(inst.state)),
    }
}

/// The document id assigned to a graph node index, if the index has been
/// materialized: the first entry of the lookup table that carries it.
pub open spec fn lut_find(lut: Seq<(usize, usize)>, key: usize) -> Option<usize>
    decreases lut.len(),
{
    if lut.len() == 0 {
        None
    } else if lut[0].0 == key {
        Some(lut[0].1)
    } else {
        lut_find(lut.drop_first(), key)
    }
}

/// An empty document at the format version this codec speaks.
pub open spec fn empty_workflow() -> WorkflowV {
    WorkflowV {
        last_node_id: 0,
        last_link_id: 0,
        nodes: Seq::empty(),
        links: Seq::empty(),
        version: Real { bits: VERSION_BITS },
    }
}

/// One step of materializing graph nodes: index `idx` is looked up in the
/// table and reused if present; otherwise, if its kind is in the catalog, a
/// fresh record is added and the assigned id remembered; a kind missing from
/// the catalog leaves the document unchanged and yields no id.
pub open spec fn ensure_node_spec(
    avail: Seq<(Seq<char>, ProjNodeV)>,
    inst: NodeInstanceV,
    w: WorkflowV,
    lut: Seq<(usize, usize)>,
    idx: usize,
) -> (WorkflowV, Seq<(usize, usize)>, Option<usize>) {
    match lut_find(lut, idx) {
        Some(id) => (w, lut, Some(id)),
        None => match avail_find(avail, inst.ty) {
            Some(meta) => (
                add_node_spec(w, fresh_wf_node(meta, inst)),
                lut.push((idx, sat_add(w.last_node_id, 1))),
                Some(sat_add(w.last_node_id, 1)),
            ),
            None => (w, lut, None),
        },
    }
}

/// The document and lookup table after the first `n` graph nodes were
/// materialized in index order.
pub open spec fn encode_nodes_spec(
    avail: Seq<(Seq<char>, ProjNodeV)>,
    g: GraphV,
    n: int,
) -> (WorkflowV, Seq<(usize, usize)>)
    decreases n,
{
    if n <= 0 {
        (empty_workflow(), Seq::empty())
    } else {
        let st = encode_nodes_spec(avail, g, n - 1);
        let st2 = ensure_node_spec(avail, g.nodes[n - 1], st.0, st.1, (n - 1) as usize);
        (st2.0, st2.1)
    }
}

/// One step of recording graph links: a link whose two endpoints were both
/// materialized and resolve in the document is recorded; any other link is
/// skipped and the document left unchanged.
pub open spec fn encode_link_spec(w: WorkflowV, lut: Seq<(usize, usize)>, l: LinkV) -> WorkflowV {
    match (lut_find(lut, l.src_node), lut_find(lut, l.dst_node)) {
        (Some(sid), Some(did)) => match link_spec(w, sid, did, l.src_slot, l.dst_slot) {
            Some(w2) => w2,
            None => w,
        },
        _ => w,
    }
}

/// The document after the first `k` graph links were recorded in order.
pub open spec fn encode_links_spec(
    w: WorkflowV,
    lut: Seq<(usize, usize)>,
    links: Seq<LinkV>,
    k: int,
) -> WorkflowV
    decreases k,
{
    if k <= 0 {
        w
    } else {
        encode_link_spec(encode_links_spec(w, lut, links, k - 1), lut, links[k - 1])
    }
}

/// The document built from a graph: every node materialized in index order,
/// then every resolvable link recorded in order.
pub open spec fn encode_spec(avail: Seq<(Seq<char>, ProjNodeV)>, g: GraphV) -> WorkflowV {
    let st = encode_nodes_spec(avail, g, g.nodes.len() as int);
    encode_links_spec(st.0, st.1, g.links, g.links.len() as int)
}

/// Why reading a document failed. A failed read rejects the whole document.
#[derive(PartialEq, Eq, Debug)]
pub enum CodecError {
    /// A node record names a kind the catalog does not declare.
    UnknownKind(String),
    /// A node record's widget values do not fit its kind's declared fields.
    WidgetMismatch(String),
    /// A link record names a node id that no node record carries.
    DanglingLink(usize),
}

/// Mathematical model of a document read error.
pub enum CodecErrorV {
    UnknownKind(Seq<char>),
    WidgetMismatch(Seq<char>),
    DanglingLink(usize),
}

impl View for CodecError {
    type V = CodecErrorV;

    open spec fn view(&self) -> CodecErrorV {
        match self {
            CodecError::UnknownKind(s) => CodecErrorV::UnknownKind(s@),
            CodecError::WidgetMismatch(s) => CodecErrorV::WidgetMismatch(s@),
            CodecError::DanglingLink(l) => CodecErrorV::DanglingLink(*l),
        }
    }
}

/// A schema field restored with one widget value from the document, when
/// the value fits the field's kind: numeric and text values become the
/// state, a boolean value becomes the default, a selection index becomes the
/// drop-down state.
pub open spec fn apply_widget(sf: FieldV, w: WidgetV) -> Option<FieldV> {
    match (sf, w) {
        (
            FieldV::Int { default, min, max, step, state: _ },
            WidgetV::IntVal(v),
        ) => Some(FieldV::Int { default, min, max, step, state: v }),
        (
            FieldV::Float { default, min, max, step, state: _ },
            WidgetV::FloatVal(v),
        ) => Some(FieldV::Float { default, min, max, step, state: v }),
        (
            FieldV::Str { multiline, default, state: _ },
            WidgetV::TextVal(t),
        ) => Some(FieldV::Str { multiline, default, state: t }),
        (FieldV::Bool { default: _ }, WidgetV::BoolVal(b)) => Some(FieldV::Bool { default: b }),
        (
            FieldV::Select { options, state: _ },
            WidgetV::OptIndex(o),
        ) => Some(FieldV::Select { options, state: o }),
        _ => None,
    }
}

/// The field state rebuilt by zipping a kind's declared fields with a
/// document's widget values positionally. Unknown fields consume no value
/// and contribute no state. `None` when a value does not fit its field or
/// the counts disagree.
pub open spec fn rebuild_state(
    fields: Seq<(Seq<char>, FieldV)>,
    widgets: Seq<WidgetV>,
) -> Option<Seq<(Seq<char>, FieldV)>>
    decreases fields.len(),
{
    if fields.len() == 0 {
        if widgets.len() == 0 {
            Some(Seq::empty())
        } else {
            None
        }
    } else {
        match fields[0].1 {
            FieldV::Unknown => rebuild_state(fields.drop_first(), widgets),
            FieldV::Connection { .. } => rebuild_state(fields.drop_first(), widgets),
            _ => if widgets.len() == 0 {
                None
            } else {
                match apply_widget(fields[0].1, widgets[0]) {
                    Some(f) => match rebuild_state(fields.drop_first(), widgets.drop_first()) {
                        Some(rest) => Some(seq![(fields[0].0, f)] + rest),
                        None => None,
                    },
                    None => None,
                }
            },
        }
    }
}

/// One node record restored against the catalog.
pub open spec fn decode_node_spec(avail: Seq<(Seq<char>, ProjNodeV)>, n: WfNodeV) -> Result<
    NodeInstanceV,
    CodecErrorV,
> {
    match avail_find(avail, n.ty) {
        None => Err(CodecErrorV::UnknownKind(n.ty)),
        Some(meta) => match rebuild_state(meta.fields, unpatch_widgets(n.ty, n.widgets_values)) {
            None => Err(CodecErrorV::WidgetMismatch(n.ty)),
            Some(state) => Ok(NodeInstanceV { ty: n.ty, pos: n.pos, state, image: None }),
        },
    }
}

/// The first `n` node records restored, or the first error among them.
pub open spec fn decode_nodes_spec(
    avail: Seq<(Seq<char>, ProjNodeV)>,
    nodes: Seq<WfNodeV>,
    n: int,
) -> Result<Seq<NodeInstanceV>, CodecErrorV>
    decreases n,
{
    if n <= 0 {
        Ok(Seq::empty())
    } else {
        match decode_nodes_spec(avail, nodes, n - 1) {
            Err(e) => Err(e),
            Ok(acc) => match decode_node_spec(avail, nodes[n - 1]) {
                Ok(inst) => Ok(acc.push(inst)),
                Err(e) => Err(e),
            },
        }
    }
}

/// One link record mapped back to graph indices: each endpoint id becomes
/// the position of the node record that carries it.
pub open spec fn decode_link_spec(nodes: Seq<WfNodeV>, l: LinkItemV) -> Result<
    LinkV,
    CodecErrorV,
> {
    match (wf_find(nodes, l.out_node_id), wf_find(nodes, l.in_node_id)) {
        (Some(s), Some(d)) => Ok(
            LinkV {
                src_node: s as usize,
                src_slot: l.out_node_link_idx,
                dst_node: d as usize,
                dst_slot: l.in_node_link_idx,
                ty: l.ty,
            },
        ),
        _ => Err(CodecErrorV::DanglingLink(l.link)),
    }
}

/// The first `k` link records restored, or the first error among them.
pub open spec fn decode_links_spec(
    nodes: Seq<WfNodeV>,
    links: Seq<LinkItemV>,
    k: int,
) -> Result<Seq<LinkV>, CodecErrorV>
    decreases k,
{
    if k <= 0 {
        Ok(Seq::empty())
    } else {
        match decode_links_spec(nodes, links, k - 1) {
            Err(e) => Err(e),
            Ok(acc) => match decode_link_spec(nodes, links[k - 1]) {
                Ok(l) => Ok(acc.push(l)),
                Err(e) => Err(e),
            },
        }
    }
}

/// The graph restored from a document: all node records, then all link
/// records, with the view transform at its defaults.
pub open spec fn decode_spec(avail: Seq<(Seq<char>, ProjNodeV)>, w: WorkflowV) -> Result<
    GraphV,
    CodecErrorV,
> {
    match decode_nodes_spec(avail, w.nodes, w.nodes.len() as int) {
        Err(e) => Err(e),
        Ok(nodes) => match decode_links_spec(w.nodes, w.links, w.links.len() as int) {
            Err(e) => Err(e),
            Ok(links) => Ok(
                GraphV { nodes, links, zoom: Real { bits: REAL_ONE_BITS }, offset: (0i64, 0i64) },
            ),
        },
    }
}

/// Builds the document form of a graph against a catalog of node kinds.
pub struct WorkflowBuilder {
    node_id_lut: Vec<(usize, usize)>,
    workflow: Workflow,
    available_nodes: Vec<(NodeType, Node)>,
}

/// Mathematical model of a builder in progress.
#[verifier::ext_equal]
pub struct BuilderV {
    pub lut: Seq<(usize, usize)>,
    pub workflow: WorkflowV,
    pub available: Seq<(Seq<char>, ProjNodeV)>,
}

impl View for WorkflowBuilder {
    type V = BuilderV;

    closed spec fn view(&self) -> BuilderV {
        BuilderV {
            lut: self.node_id_lut@,
            workflow: self.workflow@,
            available: avail_view(self.available_nodes@),
        }
    }
}

impl WorkflowBuilder {
    /// A fresh builder over the given catalog, with an empty document.
    pub fn new(available_nodes: Vec<(NodeType, Node)>) -> (r: WorkflowBuilder)
        ensures
            r@.lut == Seq::<(usize, usize)>::empty(),
            r@.workflow == empty_workflow(),
            r@.available == avail_view(available_nodes@),
    {
        let r = WorkflowBuilder {
            node_id_lut: Vec::new(),
            workflow: Workflow::new(),
            available_nodes,
        };
        proof {
            assert(r@.workflow =~= empty_workflow());
        }
        r
    }

    /// Consumes the builder and produces the document of the given graph:
    /// every node in index order, then every resolvable link in order. A
    /// node whose kind the catalog does not declare is left out, and with it
    /// every link that touches it; a link whose slots do not resolve is
    /// skipped. Nothing here fails: a partial graph still saves.
    pub fn into_workflow(self, graph: &Graph) -> (r: Workflow)
        requires
            self@.workflow == empty_workflow(),
            self@.lut == Seq::<(usize, usize)>::empty(),
        ensures
            r@ == encode_spec(self@.available, graph@),
    {
        let ghost avail = self@.available;
        let ghost g = graph@;
        let mut b = self;
        let nodes = graph.get_nodes();
        let n = nodes.len();
        let mut i: usize = 0;
        while i < n
            invariant
                i <= n,
                n == g.nodes.len(),
                nodes_view(nodes@) == g.nodes,
                b@.available == avail,
                (b@.workflow, b@.lut) == encode_nodes_spec(avail, g, i as int),
            decreases n - i,
        {
            b.create_or_get_node(&nodes[i], i);
            i = i + 1;
        }
        let links = graph.get_links();
        let m = links.len();
        let ghost st = encode_nodes_spec(avail, g, g.nodes.len() as int);
        let mut k: usize = 0;
        while k < m
            invariant
                k <= m,
                m == g.links.len(),
                links_view(links@) == g.links,
                b@.available == avail,
                b@.lut == st.1,
                b@.workflow == encode_links_spec(st.0, st.1, g.links, k as int),
            decreases m - k,
        {
            let l = &links[k];
            let sid = b.lut_get(l.src_node);
            let did = b.lut_get(l.dst_node);
            match (sid, did) {
                (Some(s), Some(d)) => {
                    let _ = b.workflow_link(s, d, l.src_slot, l.dst_slot);
                },
                _ => (),
            }
            proof {
                assert(links@[k as int]@ == g.links[k as int]);
            }
            k = k + 1;
        }
        b.done()
    }

    /// The id the lookup table assigns to a graph node index, if any.
    fn lut_get(&self, key: usize) -> (r: Option<usize>)
        ensures
            r == lut_find(self@.lut, key),
    {
        let mut i: usize = 0;
        proof {
            assert(self@.lut.skip(0int) =~= self@.lut);
        }
        while i < self.node_id_lut.len()
            invariant
                i <= self.node_id_lut@.len(),
                self@.lut == self.node_id_lut@,
                lut_find(self@.lut, key) == lut_find(self@.lut.skip(i as int), key),
            decreases self.node_id_lut@.len() - i,
        {
            proof {
                assert(self@.lut.skip(i as int)[0] == self@.lut[i as int]);
                assert(self@.lut.skip(i as int).drop_first() =~= self@.lut.skip(i as int + 1));
            }
            if self.node_id_lut[i].0 == key {
                return Some(self.node_id_lut[i].1);
            }
            i = i + 1;
        }
        None
    }

    /// Records one link in the document under construction.
    fn workflow_link(&mut self, onode: usize, inode: usize, output: usize, input: usize) -> (r:
        Option<()>)
        ensures
            final(self)@.lut == old(self)@.lut,
            final(self)@.available == old(self)@.available,
            match link_spec(old(self)@.workflow, onode, inode, output, input) {
                Some(w2) => r is Some && final(self)@.workflow == w2,
                None => r is None && final(self)@.workflow == old(self)@.workflow,
            },
    {
        self.workflow.link(onode, inode, output, input)
    }

    /// Hands the finished document out.
    fn done(self) -> (r: Workflow)
        ensures
            r@ == self@.workflow,
    {
        self.workflow
    }

    /// Materializes the document record of one graph node, or returns the
    /// id it already has. A kind missing from the catalog yields no record
    /// and no id.
    fn create_or_get_node(&mut self, inst: &NodeInstance, idx: usize) -> (r: Option<usize>)
        ensures
            final(self)@.available == old(self)@.available,
            (final(self)@.workflow, final(self)@.lut, r) == ensure_node_spec(
                old(self)@.available,
                inst@,
                old(self)@.workflow,
                old(self)@.lut,
                idx,
            ),
    {
        match self.lut_get(idx) {
            Some(id) => Some(id),
            None => {
                match lookup_meta(&self.available_nodes, &inst.ty.0) {
                    Some(mi) => {
                        let meta = &self.available_nodes[mi].1;
                        let ghost meta_v = meta@;
                        let mut inputs: Vec<WorkflowNodeInput> = Vec::new();
                        let mut ii: usize = 0;
                        while ii < meta.inputs.len()
                            invariant
                                ii <= meta.inputs@.len(),
                                meta_v == meta@,
                                inputs@.len() == ii,
                                forall|j: int|
                                    #![trigger inputs@[j]]
                                    0 <= j < ii ==> inputs@[j]@ == (WfInputV {
                                        name: meta_v.inputs[j].0,
                                        ty: meta_v.inputs[j].1,
                                        link: 0usize,
                                    }),
                            decreases meta.inputs@.len() - ii,
                        {
                            let ghost prev = inputs@;
                            inputs.push(
                                WorkflowNodeInput {
                                    name: meta.inputs[ii].0.clone(),
                                    ty: meta.inputs[ii].1.0.clone(),
                                    link: 0,
                                },
                            );
                            proof {
                                assert(inputs@[ii as int]@ == (WfInputV {
                                    name: meta_v.inputs[ii as int].0,
                                    ty: meta_v.inputs[ii as int].1,
                                    link: 0usize,
                                }));
                                assert(forall|j: int| 0 <= j < ii ==> inputs@[j] == prev[j]);
                            }
                            ii = ii + 1;
                        }
                        let mut outputs: Vec<WorkflowNodeOutput> = Vec::new();
                        let mut oi: usize = 0;
                        while oi < meta.outputs.len()
                            invariant
                                oi <= meta.outputs@.len(),
                                meta_v == meta@,
                                outputs@.len() == oi,
                                forall|j: int|
                                    #![trigger outputs@[j]]
                                    0 <= j < oi ==> outputs@[j]@ == (WfOutputV {
                                        name: meta_v.outputs[j].0,
                                        ty: meta_v.outputs[j].1,
                                        links: Seq::<usize>::empty(),
                                        slot_index: j as usize,
                                    }),
                            decreases meta.outputs@.len() - oi,
                        {
                            let ghost prev = outputs@;
                            let out = WorkflowNodeOutput {
                                name: meta.outputs[oi].0.clone(),
                                ty: meta.outputs[oi].1.0.clone(),
                                links: Vec::new(),
                                slot_index: oi,
                            };
                            proof {
                                assert(out@.links =~= Seq::<usize>::empty());
                            }
                            outputs.push(out);
                            proof {
                                assert(forall|j: int| 0 <= j < oi ==> outputs@[j] == prev[j]);
                            }
                            oi = oi + 1;
                        }
                        let widgets = build_widgets(&inst.ty, &inst.state);
                        let node = WorkflowNode {
                            id: 0,
                            ty: inst.ty.0.clone(),
                            pos: inst.pos,
                            order: 1,
                            mode: 0,
                            inputs,
                            outputs,
                            properties: Vec::new(),
                            widgets_values: widgets,
                        };
                        proof {
                            assert(node@.inputs =~= fresh_wf_node(meta_v, inst@).inputs);
                            assert(node@.outputs =~= fresh_wf_node(meta_v, inst@).outputs);
                            assert(node@.properties =~= Seq::<(Seq<char>, Seq<char>)>::empty());
                            assert(node@ =~= fresh_wf_node(meta_v, inst@));
                        }
                        let ghost prev_lut = self.node_id_lut@;
                        let ghost prev_wf = self.workflow@;
                        let id = self.workflow.add_node(node);
                        self.node_id_lut.push((idx, id));
                        proof {
                            assert(self@.lut =~= prev_lut.push((idx, id)));
                        }
                        Some(id)
                    },
                    None => None,
                }
            },
        }
    }
}

/// The document form of a graph against a catalog of node kinds: every
/// node in index order, then every resolvable link in order.
pub fn encode_document(available_nodes: Vec<(NodeType, Node)>, graph: &Graph) -> (r: Workflow)
    ensures
        r@ == encode_spec(avail_view(available_nodes@), graph@),
{
    let b = WorkflowBuilder::new(available_nodes);
    b.into_workflow(graph)
}

/// The position of the first catalog entry declared under the given kind.
pub fn lookup_meta(avail: &Vec<(NodeType, Node)>, ty: &String) -> (r: Option<usize>)
    ensures
        match r {
            Some(j) => {
                &&& j < avail@.len()
                &&& avail_find(avail_view(avail@), ty@) == Some(avail_view(avail@)[j as int].1)
                &&& avail_view(avail@)[j as int].1 == avail@[j as int].1@
            },
            None => avail_find(avail_view(avail@), ty@) is None,
        },
{
    let mut i: usize = 0;
    proof {
        assert(avail_view(avail@).skip(0int) =~= avail_view(avail@));
    }
    while i < avail.len()
        invariant
            i <= avail@.len(),
            avail_view(avail@).len() == avail@.len(),
            match avail_find(avail_view(avail@).skip(i as int), ty@) {
                Some(m) => avail_find(avail_view(avail@), ty@) == Some(m),
                None => avail_find(avail_view(avail@), ty@) is None,
            },
        decreases avail@.len() - i,
    {
        proof {
            assert(avail_view(avail@).skip(i as int)[0] == avail_view(avail@)[i as int]);
            assert(avail_view(avail@).skip(i as int).drop_first() =~= avail_view(avail@).skip(
                i as int + 1,
            ));
        }
        if avail[i].0.0.eq(ty) {
            return Some(i);
        }
        i = i + 1;
    }
    None
}

/// The widget-value list of one node instance, with the known-quirk patch
/// applied for the one kind that needs it.
fn build_widgets(ty: &NodeType, state: &Vec<(String, NodeField)>) -> (r: Vec<WidgetValue>)
    ensures
        r@.map_values(|w: WidgetValue| w@) == patch_widgets(ty@, widgets_of_state(state_view(
            state@,
        ))),
{
    let ghost sv = state_view(state@);
    let mut r: Vec<WidgetValue> = Vec::new();
    let mut i: usize = 0;
    proof {
        assert(sv.skip(0int) =~= sv);
        assert(r@.map_values(|w: WidgetValue| w@) =~= Seq::<WidgetV>::empty());
    }
    while i < state.len()
        invariant
            i <= state@.len(),
            sv == state_view(state@),
            sv.len() == state@.len(),
            widgets_of_state(sv) == r@.map_values(|w: WidgetValue| w@) + widgets_of_state(
                sv.skip(i as int),
            ),
        decreases state@.len() - i,
    {
        proof {
            assert(sv.skip(i as int)[0] == sv[i as int]);
            assert(sv.skip(i as int).drop_first() =~= sv.skip(i as int + 1));
        }
        match state[i].1.state() {
            Some(w) => {
                let ghost prev = r@;
                r.push(w);
                proof {
                    assert(r@.map_values(|w2: WidgetValue| w2@) =~= prev.map_values(
                        |w2: WidgetValue| w2@,
                    ).push(r@.last()@));
                }
            },
            None => (),
        }
        i = i + 1;
    }
    proof {
        assert(sv.skip(sv.len() as int) =~= Seq::<(Seq<char>, FieldV)>::empty());
        assert(r@.map_values(|w: WidgetValue| w@) =~= widgets_of_state(sv));
    }
    if ty.0.as_str().eq(PATCHED_KIND) && r.len() >= 1 {
        let ghost before = r@.map_values(|w: WidgetValue| w@);
        r.insert(1, WidgetValue::TextVal(string_of(PATCHED_VALUE)));
        proof {
            assert(r@.map_values(|w: WidgetValue| w@) =~= before.insert(
                1,
                WidgetV::TextVal(PATCHED_VALUE@),
            ));
        }
    }
    r
}

/// A fresh owned copy of a string slice.
fn string_of(s: &str) -> (r: String)
    ensures
        r@ == s@,
{
    let mut r = String::new();
    r.append(s);
    r
}


/// A schema field restored with one widget value, when the value fits.
fn apply_widget_exec(sf: &NodeField, w: &WidgetValue) -> (r: Option<NodeField>)
    ensures
        match apply_widget(sf@, w@) {
            Some(f) => r is Some && r->0@ == f,
            None => r is None,
        },
{
    match (sf, w) {
        (NodeField::IntInput(input), WidgetValue::IntVal(v)) => Some(
            NodeField::IntInput(crate::field::IntInput { state: *v, ..*input }),
        ),
        (NodeField::FloatInput(input), WidgetValue::FloatVal(v)) => Some(
            NodeField::FloatInput(crate::field::FloatInput { state: *v, ..*input }),
        ),
        (NodeField::StringInput(input), WidgetValue::TextVal(t)) => Some(
            NodeField::StringInput(
                crate::field::StringInput {
                    multiline: input.multiline,
                    default: match &input.default {
                        Some(d) => Some(d.clone()),
                        None => None,
                    },
                    state: t.clone(),
                },
            ),
        ),
        (NodeField::BoolInput(_), WidgetValue::BoolVal(b)) => Some(
            NodeField::BoolInput(crate::field::BoolInput { default: *b }),
        ),
        (NodeField::Select { options, state: _ }, WidgetValue::OptIndex(o)) => Some(
            NodeField::Select { options: crate::field::clone_strings(options), state: *o },
        ),
        _ => None,
    }
}

/// The field state rebuilt by zipping a kind's declared fields with a
/// document's widget values positionally, or `None` when they do not fit.
fn rebuild_state_exec(fields: &Vec<(String, NodeField)>, widgets: &Vec<WidgetValue>) -> (r: Option<Vec<(String, NodeField)>>)
    ensures
        match rebuild_state(state_view(fields@), widgets@.map_values(|w: WidgetValue| w@)) {
            Some(st) => r is Some && state_view(r->0@) == st,
            None => r is None,
        },
{
    let ghost fv = state_view(fields@);
    let ghost wv = widgets@.map_values(|w: WidgetValue| w@);
    let mut acc: Vec<(String, NodeField)> = Vec::new();
    let mut i: usize = 0;
    let mut j: usize = 0;
    proof {
        assert(fv.skip(0int) =~= fv);
        assert(wv.skip(0int) =~= wv);
        assert(state_view(acc@) =~= Seq::<(Seq<char>, FieldV)>::empty());
    }
    while i < fields.len()
        invariant
            i <= fields@.len(),
            j <= widgets@.len(),
            fv == state_view(fields@),
            wv == widgets@.map_values(|w: WidgetValue| w@),
            fv.len() == fields@.len(),
            wv.len() == widgets@.len(),
            match rebuild_state(fv.skip(i as int), wv.skip(j as int)) {
                Some(rest) => rebuild_state(fv, wv) == Some(state_view(acc@) + rest),
                None => rebuild_state(fv, wv) is None,
            },
        decreases fields@.len() - i,
    {
        proof {
            assert(fv.skip(i as int)[0] == fv[i as int]);
            assert(fv.skip(i as int).drop_first() =~= fv.skip(i as int + 1));
        }
        let skip_field = match &fields[i].1 {
            NodeField::Unknown => true,
            NodeField::Connection(_) => true,
            _ => false,
        };
        if !skip_field {
            if j >= widgets.len() {
                proof {
                    assert(wv.skip(j as int) =~= Seq::<WidgetV>::empty());
                }
                return None;
            }
            proof {
                assert(wv.skip(j as int)[0] == wv[j as int]);
                assert(wv.skip(j as int).drop_first() =~= wv.skip(j as int + 1));
            }
            match apply_widget_exec(&fields[i].1, &widgets[j]) {
                Some(f) => {
                    let ghost prev = acc@;
                    let ghost f_v = f@;
                    acc.push((fields[i].0.clone(), f));
                    proof {
                        assert(state_view(acc@) =~= state_view(prev).push(
                            (fv[i as int].0, f_v),
                        ));
                        assert(state_view(prev) + (seq![(fv[i as int].0, f_v)] + rebuild_state(
                            fv.skip(i as int + 1),
                            wv.skip(j as int + 1),
                        )->0) =~= state_view(acc@) + rebuild_state(
                            fv.skip(i as int + 1),
                            wv.skip(j as int + 1),
                        )->0);
                    }
                    j = j + 1;
                },
                None => {
                    return None;
                },
            }
        }
        i = i + 1;
    }
    proof {
        assert(fv.skip(fv.len() as int) =~= Seq::<(Seq<char>, FieldV)>::empty());
    }
    if j != widgets.len() {
        return None;
    }
    proof {
        assert(wv.skip(wv.len() as int) =~= Seq::<WidgetV>::empty());
        assert(state_view(acc@) + Seq::<(Seq<char>, FieldV)>::empty() =~= state_view(acc@));
    }
    Some(acc)
}

/// The position of the first node record carrying the given id.
fn find_record(nodes: &Vec<WorkflowNode>, id: usize) -> (r: Option<usize>)
    ensures
        match r {
            Some(j) => {
                &&& j < nodes@.len()
                &&& wf_find(nodes@.map_values(|n: WorkflowNode| n@), id) == Some(j as int)
            },
            None => wf_find(nodes@.map_values(|n: WorkflowNode| n@), id) is None,
        },
{
    let ghost nv = nodes@.map_values(|n: WorkflowNode| n@);
    let mut i: usize = 0;
    proof {
        assert(nv.skip(0int) =~= nv);
    }
    while i < nodes.len()
        invariant
            i <= nodes@.len(),
            nv == nodes@.map_values(|n: WorkflowNode| n@),
            nv.len() == nodes@.len(),
            match wf_find(nv.skip(i as int), id) {
                Some(j) => wf_find(nv, id) == Some(j + i),
                None => wf_find(nv, id) is None,
            },
        decreases nodes@.len() - i,
    {
        proof {
            assert(nv.skip(i as int)[0] == nv[i as int]);
            assert(nv.skip(i as int).drop_first() =~= nv.skip(i as int + 1));
        }
        if nodes[i].id == id {
            return Some(i);
        }
        i = i + 1;
    }
    None
}

/// One node record restored against the catalog.
fn decode_node(avail: &Vec<(NodeType, Node)>, n: &WorkflowNode) -> (r: Result<NodeInstance, CodecError>)
    ensures
        match r {
            Ok(inst) => decode_node_spec(avail_view(avail@), n@) == Ok::<
                NodeInstanceV,
                CodecErrorV,
            >(inst@),
            Err(e) => decode_node_spec(avail_view(avail@), n@) == Err::<
                NodeInstanceV,
                CodecErrorV,
            >(e@),
        },
{
    match lookup_meta(avail, &n.ty) {
        None => Err(CodecError::UnknownKind(n.ty.clone())),
        Some(mi) => {
            let meta = &avail[mi].1;
            let mut widgets = clone_widgets(&n.widgets_values);
            if n.ty.as_str().eq(PATCHED_KIND) && widgets.len() >= 2 {
                let ghost before = widgets@.map_values(|w: WidgetValue| w@);
                widgets.remove(1);
                proof {
                    assert(widgets@.map_values(|w: WidgetValue| w@) =~= before.remove(1));
                }
            }
            proof {
                assert(widgets@.map_values(|w: WidgetValue| w@) == unpatch_widgets(
                    n@.ty,
                    n@.widgets_values,
                ));
            }
            match rebuild_state_exec(&meta.fields, &widgets) {
                None => Err(CodecError::WidgetMismatch(n.ty.clone())),
                Some(state) => Ok(
                    NodeInstance {
                        ty: NodeType(n.ty.clone()),
                        pos: n.pos,
                        state,
                        image: None,
                    },
                ),
            }
        },
    }
}

/// Clones a widget-value list, keeping every element's model.
fn clone_widgets(v: &Vec<WidgetValue>) -> (r: Vec<WidgetValue>)
    ensures
        r@.map_values(|w: WidgetValue| w@) == v@.map_values(|w: WidgetValue| w@),
        r@.len() == v@.len(),
{
    let mut r: Vec<WidgetValue> = Vec::new();
    let mut i: usize = 0;
    while i < v.len()
        invariant
            i <= v@.len(),
            r@.len() == i,
            forall|j: int| #![trigger r@[j]] 0 <= j < i ==> r@[j]@ == v@[j]@,
        decreases v@.len() - i,
    {
        let ghost prev = r@;
        r.push(v[i].clone());
        proof {
            assert(forall|j: int| 0 <= j < i ==> r@[j] == prev[j]);
        }
        i = i + 1;
    }
    proof {
        assert(r@.map_values(|w: WidgetValue| w@) =~= v@.map_values(|w: WidgetValue| w@));
    }
    r
}

/// When the first records restore cleanly and the next one fails, the whole
/// document fails with that record's error.
proof fn lemma_decode_nodes_prefix_err(
    avail: Seq<(Seq<char>, ProjNodeV)>,
    nodes: Seq<WfNodeV>,
    n: int,
    i: int,
)
    requires
        0 <= i < n,
        decode_nodes_spec(avail, nodes, i) is Ok,
        decode_node_spec(avail, nodes[i]) is Err,
    ensures
        decode_nodes_spec(avail, nodes, n) == Err::<Seq<NodeInstanceV>, CodecErrorV>(
            decode_node_spec(avail, nodes[i])->Err_0,
        ),
    decreases n,
{
    if n == i + 1 {
    } else {
        lemma_decode_nodes_prefix_err(avail, nodes, n - 1, i);
    }
}

/// When the first link records restore cleanly and the next one fails, the
/// whole document fails with that record's error.
proof fn lemma_decode_links_prefix_err(
    nodes: Seq<WfNodeV>,
    links: Seq<LinkItemV>,
    n: int,
    i: int,
)
    requires
        0 <= i < n,
        decode_links_spec(nodes, links, i) is Ok,
        decode_link_spec(nodes, links[i]) is Err,
    ensures
        decode_links_spec(nodes, links, n) == Err::<Seq<LinkV>, CodecErrorV>(
            decode_link_spec(nodes, links[i])->Err_0,
        ),
    decreases n,
{
    if n == i + 1 {
    } else {
        lemma_decode_links_prefix_err(nodes, links, n - 1, i);
    }
}

/// Restores a graph from a document against a catalog of node kinds.
/// Returns the graph exactly when every node record's kind and widget
/// values restore and every link record's endpoints resolve; the first
/// failure rejects the whole document.
pub fn decode_document(avail: &Vec<(NodeType, Node)>, w: &Workflow) -> (r: Result<Graph, CodecError>)
    ensures
        match r {
            Ok(g) => decode_spec(avail_view(avail@), w@) == Ok::<GraphV, CodecErrorV>(g@),
            Err(e) => decode_spec(avail_view(avail@), w@) == Err::<GraphV, CodecErrorV>(e@),
        },
{
    let ghost av = avail_view(avail@);
    let ghost wv = w@;
    let mut nodes: Vec<NodeInstance> = Vec::new();
    let mut i: usize = 0;
    proof {
        assert(nodes_view(nodes@) =~= Seq::<NodeInstanceV>::empty());
    }
    while i < w.nodes.len()
        invariant
            i <= w.nodes@.len(),
            av == avail_view(avail@),
            wv == w@,
            wv.nodes.len() == w.nodes@.len(),
            decode_nodes_spec(av, wv.nodes, i as int) == Ok::<Seq<NodeInstanceV>, CodecErrorV>(
                nodes_view(nodes@),
            ),
        decreases w.nodes@.len() - i,
    {
        proof {
            assert(wv.nodes[i as int] == w.nodes@[i as int]@);
        }
        match decode_node(avail, &w.nodes[i]) {
            Ok(inst) => {
                let ghost prev = nodes@;
                let ghost iv = inst@;
                nodes.push(inst);
                proof {
                    assert(nodes_view(nodes@) =~= nodes_view(prev).push(iv));
                }
            },
            Err(e) => {
                proof {
                    lemma_decode_nodes_prefix_err(av, wv.nodes, wv.nodes.len() as int, i as int);
                }
                return Err(e);
            },
        }
        i = i + 1;
    }
    let mut links: Vec<Link> = Vec::new();
    let mut k: usize = 0;
    proof {
        assert(links_view(links@) =~= Seq::<LinkV>::empty());
    }
    while k < w.links.len()
        invariant
            k <= w.links@.len(),
            av == avail_view(avail@),
            wv == w@,
            wv.nodes.len() == w.nodes@.len(),
            wv.links.len() == w.links@.len(),
            decode_nodes_spec(av, wv.nodes, wv.nodes.len() as int) is Ok,
            decode_nodes_spec(av, wv.nodes, wv.nodes.len() as int) == Ok::<
                Seq<NodeInstanceV>,
                CodecErrorV,
            >(nodes_view(nodes@)),
            decode_links_spec(wv.nodes, wv.links, k as int) == Ok::<Seq<LinkV>, CodecErrorV>(
                links_view(links@),
            ),
        decreases w.links@.len() - k,
    {
        proof {
            assert(wv.links[k as int] == w.links@[k as int]@);
        }
        let item = &w.links[k];
        let s = find_record(&w.nodes, item.out_node_id);
        let d = find_record(&w.nodes, item.in_node_id);
        match (s, d) {
            (Some(si), Some(di)) => {
                let ghost prev = links@;
                links.push(
                    Link {
                        src_node: si,
                        src_slot: item.out_node_link_idx,
                        dst_node: di,
                        dst_slot: item.in_node_link_idx,
                        ty: LinkType(item.ty.clone()),
                    },
                );
                proof {
                    assert(links_view(links@) =~= links_view(prev).push(links@.last()@));
                    assert(decode_link_spec(wv.nodes, wv.links[k as int]) == Ok::<
                        LinkV,
                        CodecErrorV,
                    >(links@.last()@));
                }
            },
            _ => {
                let e = CodecError::DanglingLink(item.link);
                proof {
                    assert(decode_link_spec(wv.nodes, wv.links[k as int]) == Err::<
                        LinkV,
                        CodecErrorV,
                    >(e@));
                    lemma_decode_links_prefix_err(
                        wv.nodes,
                        wv.links,
                        wv.links.len() as int,
                        k as int,
                    );
                }
                return Err(e);
            },
        }
        k = k + 1;
    }
    Ok(Graph::from_parts(nodes, links))
}


/// A live field agrees with its declared schema field: same kind, same
/// bounds and defaults, only the state slot free — and a drop-down's
/// selection, if any, within its option list, as the data model requires.
pub open spec fn field_conforms(f: FieldV, sf: FieldV) -> bool {
    match (f, sf) {
        (
            FieldV::Int { default, min, max, step, state: _ },
            FieldV::Int { default: d2, min: m2, max: x2, step: s2, state: _ },
        ) => default == d2 && min == m2 && max == x2 && step == s2,
        (
            FieldV::Float { default, min, max, step, state: _ },
            FieldV::Float { default: d2, min: m2, max: x2, step: s2, state: _ },
        ) => default == d2 && min == m2 && max == x2 && step == s2,
        (
            FieldV::Str { multiline, default, state: _ },
            FieldV::Str { multiline: m2, default: d2, state: _ },
        ) => multiline == m2 && default == d2,
        (FieldV::Bool { .. }, FieldV::Bool { .. }) => true,
        (
            FieldV::Select { options, state },
            FieldV::Select { options: o2, state: _ },
        ) => options == o2 && (match state {
            Some(i) => i < options.len(),
            None => true,
        }),
        _ => false,
    }
}

/// A node's live state lines up with its kind's declared fields: one entry
/// per non-unknown field, in order, by the same name and of a conforming
/// shape.
pub open spec fn state_conforms(
    state: Seq<(Seq<char>, FieldV)>,
    fields: Seq<(Seq<char>, FieldV)>,
) -> bool
    decreases fields.len(),
{
    if fields.len() == 0 {
        state.len() == 0
    } else {
        match fields[0].1 {
            FieldV::Unknown => state_conforms(state, fields.drop_first()),
            FieldV::Connection { .. } => false,
            _ => {
                &&& state.len() > 0
                &&& state[0].0 == fields[0].0
                &&& field_conforms(state[0].1, fields[0].1)
                &&& state_conforms(state.drop_first(), fields.drop_first())
            },
        }
    }
}

/// A node instance is well formed against the catalog: its kind is
/// declared, its state lines up with the declared fields, and it carries no
/// unsaved output image.
pub open spec fn node_conforms(avail: Seq<(Seq<char>, ProjNodeV)>, n: NodeInstanceV) -> bool {
    &&& match avail_find(avail, n.ty) {
        Some(meta) => state_conforms(n.state, meta.fields),
        None => false,
    }
    &&& n.image is None
}

/// A link is well formed against the catalog: both endpoints exist, both
/// slots are declared, and the link carries the consuming slot's type.
pub open spec fn link_conforms(avail: Seq<(Seq<char>, ProjNodeV)>, g: GraphV, l: LinkV) -> bool {
    &&& l.src_node < g.nodes.len()
    &&& l.dst_node < g.nodes.len()
    &&& match avail_find(avail, g.nodes[l.src_node as int].ty) {
        Some(m) => l.src_slot < m.outputs.len(),
        None => false,
    }
    &&& match avail_find(avail, g.nodes[l.dst_node as int].ty) {
        Some(m) => l.dst_slot < m.inputs.len() && l.ty == m.inputs[l.dst_slot as int].1,
        None => false,
    }
}

/// A graph is well formed against the catalog: every node and every link
/// conforms, and the view transform is at its defaults, which the document
/// format does not record.
pub open spec fn graph_conforms(avail: Seq<(Seq<char>, ProjNodeV)>, g: GraphV) -> bool {
    &&& g.nodes.len() <= usize::MAX
    &&& forall|i: int| 0 <= i < g.nodes.len() ==> node_conforms(avail, #[trigger] g.nodes[i])
    &&& forall|k: int| 0 <= k < g.links.len() ==> link_conforms(avail, g, #[trigger] g.links[k])
    &&& g.zoom == (Real { bits: REAL_ONE_BITS })
    &&& g.offset == (0i64, 0i64)
}

/// Reading the patch back out leaves the widget values as they were.
proof fn lemma_patch_unpatch(ty: Seq<char>, w: Seq<WidgetV>)
    ensures
        unpatch_widgets(ty, patch_widgets(ty, w)) == w,
{
    if ty == PATCHED_KIND@ && w.len() >= 1 {
        let p = w.insert(1, WidgetV::TextVal(PATCHED_VALUE@));
        assert(p.remove(1) =~= w);
    }
}

/// Rebuilding a conforming state from its own widget values restores it
/// exactly.
proof fn lemma_rebuild_state(state: Seq<(Seq<char>, FieldV)>, fields: Seq<(Seq<char>, FieldV)>)
    requires
        state_conforms(state, fields),
    ensures
        rebuild_state(fields, widgets_of_state(state)) == Some(state),
    decreases fields.len(),
{
    if fields.len() == 0 {
        assert(state =~= Seq::<(Seq<char>, FieldV)>::empty());
        assert(widgets_of_state(state) =~= Seq::<WidgetV>::empty());
    } else {
        match fields[0].1 {
            FieldV::Unknown => {
                lemma_rebuild_state(state, fields.drop_first());
            },
            FieldV::Connection { .. } => {
                assert(false);
            },
            _ => {
                let f = state[0].1;
                let sf = fields[0].1;
                let w0 = f.widget_spec()->0;
                assert(f.widget_spec() is Some);
                assert(apply_widget(sf, w0) == Some(f));
                let ws = widgets_of_state(state);
                assert(ws == seq![w0] + widgets_of_state(state.drop_first()));
                assert(ws.len() >= 1);
                assert(ws[0] == w0);
                assert(ws.drop_first() =~= widgets_of_state(state.drop_first()));
                lemma_rebuild_state(state.drop_first(), fields.drop_first());
                assert(rebuild_state(fields, ws) == Some(
                    seq![(fields[0].0, f)] + state.drop_first(),
                ));
                assert((fields[0].0, f) == state[0]);
                assert(seq![state[0]] + state.drop_first() =~= state);
            },
        }
    }
}

/// Finding a key in a table extended by one entry: an existing key keeps
/// its value, and the new entry answers only for its own key.
proof fn lemma_lut_find_push(lut: Seq<(usize, usize)>, p: (usize, usize), key: usize)
    ensures
        lut_find(lut.push(p), key) == (match lut_find(lut, key) {
            Some(v) => Some(v),
            None => if p.0 == key {
                Some(p.1)
            } else {
                None
            },
        }),
    decreases lut.len(),
{
    if lut.len() == 0 {
        assert(lut.push(p)[0] == p);
        assert(lut.push(p).drop_first() =~= Seq::<(usize, usize)>::empty());
        assert(lut_find(lut, key) is None);
        if p.0 == key {
            assert(lut_find(lut.push(p), key) == Some(p.1));
        } else {
            assert(lut_find(Seq::<(usize, usize)>::empty(), key) is None);
            assert(lut_find(lut.push(p), key) is None);
        }
    } else {
        assert(lut.push(p)[0] == lut[0]);
        assert(lut.push(p).drop_first() =~= lut.drop_first().push(p));
        lemma_lut_find_push(lut.drop_first(), p, key);
        if lut[0].0 == key {
            assert(lut_find(lut.push(p), key) == Some(lut[0].1));
            assert(lut_find(lut, key) == Some(lut[0].1));
        } else {
            assert(lut_find(lut.push(p), key) == lut_find(lut.drop_first().push(p), key));
            assert(lut_find(lut, key) == lut_find(lut.drop_first(), key));
        }
    }
}

/// Finding a node record by id in a list whose record `k` carries id
/// `base + k + 1`.
proof fn lemma_wf_find_ids(nodes: Seq<WfNodeV>, base: int, id: usize)
    requires
        0 <= base,
        base + nodes.len() <= usize::MAX,
        forall|k: int| 0 <= k < nodes.len() ==> (#[trigger] nodes[k].id) == base + k + 1,
    ensures
        wf_find(nodes, id) == (if base + 1 <= id <= base + nodes.len() {
            Some(id - base - 1)
        } else {
            None::<int>
        }),
    decreases nodes.len(),
{
    if nodes.len() == 0 {
    } else {
        assert(nodes[0].id == base + 1);
        assert(forall|k: int|
            0 <= k < nodes.drop_first().len() ==> (#[trigger] nodes.drop_first()[k].id) == base + 1
                + k + 1);
        lemma_wf_find_ids(nodes.drop_first(), base + 1, id);
    }
}

/// What the node record of one graph node looks like in the encoded
/// document.
pub open spec fn wf_node_matches(
    avail: Seq<(Seq<char>, ProjNodeV)>,
    g: GraphV,
    k: int,
    wn: WfNodeV,
) -> bool {
    let inst = g.nodes[k];
    let meta = avail_find(avail, inst.ty)->0;
    &&& wn.id == k + 1
    &&& wn.ty == inst.ty
    &&& wn.pos == inst.pos
    &&& wn.widgets_values == patch_widgets(inst.ty, widgets_of_state(inst.state))
    &&& wn.inputs.len() == meta.inputs.len()
    &&& forall|s: int| 0 <= s < wn.inputs.len() ==> (#[trigger] wn.inputs[s].ty)
        == meta.inputs[s].1
    &&& wn.outputs.len() == meta.outputs.len()
}

/// The shape of the document after all nodes of a conforming graph were
/// materialized: node `k` has id `k + 1` and carries that node's data, and
/// the lookup table maps exactly the first `n` indices, each to its id.
proof fn lemma_encode_nodes_shape(avail: Seq<(Seq<char>, ProjNodeV)>, g: GraphV, n: int)
    requires
        0 <= n <= g.nodes.len(),
        g.nodes.len() <= usize::MAX,
        forall|i: int| 0 <= i < g.nodes.len() ==> node_conforms(avail, #[trigger] g.nodes[i]),
    ensures
        ({
            let st = encode_nodes_spec(avail, g, n);
            &&& st.0.nodes.len() == n
            &&& st.0.last_node_id == n
            &&& st.0.links == Seq::<LinkItemV>::empty()
            &&& st.0.version == (Real { bits: VERSION_BITS })
            &&& forall|k: int| 0 <= k < n ==> wf_node_matches(avail, g, k, #[trigger] st.0.nodes[k])
            &&& forall|key: usize|
                (key as int) < n ==> lut_find(st.1, key) == Some(#[trigger] sat_add(key, 1))
            &&& forall|key: usize| (key as int) >= n ==> #[trigger] lut_find(st.1, key) is None
        }),
    decreases n,
{
    if n <= 0 {
        assert(forall|key: usize| lut_find(Seq::<(usize, usize)>::empty(), key) is None);
    } else {
        lemma_encode_nodes_shape(avail, g, n - 1);
        let st = encode_nodes_spec(avail, g, n - 1);
        let inst = g.nodes[n - 1];
        assert(node_conforms(avail, inst));
        assert(lut_find(st.1, (n - 1) as usize) is None);
        let meta = avail_find(avail, inst.ty)->0;
        let fresh = fresh_wf_node(meta, inst);
        let st2 = encode_nodes_spec(avail, g, n);
        assert(st2.0 == add_node_spec(st.0, fresh));
        assert(st2.1 == st.1.push((((n - 1) as usize), sat_add(st.0.last_node_id, 1))));
        assert(sat_add(st.0.last_node_id, 1) == n);
        let stored = st2.0.nodes.last();
        assert(stored.id == n);
        assert(stored.inputs =~= crate::workflow::renumber_inputs(fresh.inputs, st.0.last_link_id));
        assert(forall|s: int|
            0 <= s < stored.inputs.len() ==> (#[trigger] stored.inputs[s].ty)
                == meta.inputs[s].1);
        assert(wf_node_matches(avail, g, n - 1, stored));
        assert(forall|k: int|
            0 <= k < n - 1 ==> st2.0.nodes[k] == st.0.nodes[k]);
        assert forall|key: usize| (key as int) < n implies lut_find(st2.1, key) == Some(
            sat_add(key, 1),
        ) by {
            lemma_lut_find_push(st.1, (((n - 1) as usize), n as usize), key);
            if (key as int) < n - 1 {
            } else {
                assert(key as int == n - 1);
                assert(sat_add(key, 1) == n);
            }
        };
        assert forall|key: usize| (key as int) >= n implies lut_find(st2.1, key) is None by {
            lemma_lut_find_push(st.1, (((n - 1) as usize), n as usize), key);
        };
    }
}

/// What the link record of one graph link looks like in the encoded
/// document, against the node records already materialized.
pub open spec fn wf_link_matches(st_nodes: Seq<WfNodeV>, l: LinkV, item: LinkItemV) -> bool {
    &&& item.out_node_id == sat_add(l.src_node, 1)
    &&& item.out_node_link_idx == l.src_slot
    &&& item.in_node_id == sat_add(l.dst_node, 1)
    &&& item.in_node_link_idx == l.dst_slot
    &&& item.ty == l.ty
}

/// Recording the links of a conforming graph: every link resolves and is
/// recorded in order, and the node records keep everything but their
/// output-consumer notes.
proof fn lemma_encode_links(avail: Seq<(Seq<char>, ProjNodeV)>, g: GraphV, k: int)
    requires
        0 <= k <= g.links.len(),
        g.nodes.len() <= usize::MAX,
        forall|i: int| 0 <= i < g.nodes.len() ==> node_conforms(avail, #[trigger] g.nodes[i]),
        forall|t: int| 0 <= t < g.links.len() ==> link_conforms(avail, g, #[trigger] g.links[t]),
    ensures
        ({
            let st = encode_nodes_spec(avail, g, g.nodes.len() as int);
            let w = encode_links_spec(st.0, st.1, g.links, k);
            &&& w.nodes.len() == st.0.nodes.len()
            &&& forall|j: int|
                0 <= j < w.nodes.len() ==> core_eq(#[trigger] w.nodes[j], st.0.nodes[j])
            &&& w.links.len() == k
            &&& forall|t: int|
                0 <= t < k ==> wf_link_matches(st.0.nodes, g.links[t], #[trigger] w.links[t])
            &&& w.last_node_id == st.0.last_node_id
            &&& w.last_link_id == st.0.last_link_id
            &&& w.version == st.0.version
        }),
    decreases k,
{
    lemma_encode_nodes_shape(avail, g, g.nodes.len() as int);
    let st = encode_nodes_spec(avail, g, g.nodes.len() as int);
    if k <= 0 {
    } else {
        lemma_encode_links(avail, g, k - 1);
        let w = encode_links_spec(st.0, st.1, g.links, k - 1);
        let l = g.links[k - 1];
        assert(link_conforms(avail, g, l));
        let sid = sat_add(l.src_node, 1);
        let did = sat_add(l.dst_node, 1);
        assert(lut_find(st.1, l.src_node) == Some(sid));
        assert(lut_find(st.1, l.dst_node) == Some(did));
        assert(forall|j: int|
            0 <= j < w.nodes.len() ==> (#[trigger] w.nodes[j].id) == j + 1);
        lemma_wf_find_ids(w.nodes, 0, sid);
        lemma_wf_find_ids(w.nodes, 0, did);
        assert(wf_find(w.nodes, did) == Some(l.dst_node as int));
        assert(wf_find(w.nodes, sid) == Some(l.src_node as int));
        let dst_meta = avail_find(avail, g.nodes[l.dst_node as int].ty)->0;
        let src_meta = avail_find(avail, g.nodes[l.src_node as int].ty)->0;
        assert(wf_node_matches(avail, g, l.dst_node as int, st.0.nodes[l.dst_node as int]));
        assert(wf_node_matches(avail, g, l.src_node as int, st.0.nodes[l.src_node as int]));
        assert(w.nodes[l.dst_node as int].inputs.len() == dst_meta.inputs.len());
        assert(l.dst_slot < w.nodes[l.dst_node as int].inputs.len());
        assert(l.src_slot < w.nodes[l.src_node as int].outputs.len());
        let w2 = link_spec(w, sid, did, l.src_slot, l.dst_slot)->0;
        assert(link_spec(w, sid, did, l.src_slot, l.dst_slot) is Some);
        assert(w2.links.last().ty == w.nodes[l.dst_node as int].inputs[l.dst_slot as int].ty);
        assert(w.nodes[l.dst_node as int].inputs[l.dst_slot as int].ty == dst_meta.inputs[
            l.dst_slot as int
        ].1);
        assert(w2.links.last().ty == l.ty);
        assert(wf_link_matches(st.0.nodes, l, w2.links.last()));
        assert(forall|t: int| 0 <= t < k - 1 ==> w2.links[t] == w.links[t]);
        assert(forall|j: int|
            0 <= j < w2.nodes.len() ==> core_eq(#[trigger] w2.nodes[j], w.nodes[j]));
    }
}

/// The parts of a node record that recording links leaves untouched.
pub open spec fn core_eq(a: WfNodeV, b: WfNodeV) -> bool {
    &&& a.id == b.id
    &&& a.ty == b.ty
    &&& a.pos == b.pos
    &&& a.widgets_values == b.widgets_values
    &&& a.inputs == b.inputs
    &&& a.outputs.len() == b.outputs.len()
}

/// The round-trip law of the document codec: a conforming graph, written to
/// a document and read back against the same catalog, is restored exactly —
/// nodes, field state, links and all.
pub proof fn lemma_document_round_trip(avail: Seq<(Seq<char>, ProjNodeV)>, g: GraphV)
    requires
        graph_conforms(avail, g),
    ensures
        decode_spec(avail, encode_spec(avail, g)) == Ok::<GraphV, CodecErrorV>(g),
{
    let n = g.nodes.len() as int;
    let m = g.links.len() as int;
    lemma_encode_nodes_shape(avail, g, n);
    lemma_encode_links(avail, g, m);
    let st = encode_nodes_spec(avail, g, n);
    let w = encode_spec(avail, g);
    assert(w == encode_links_spec(st.0, st.1, g.links, m));
    // every node record decodes back to its graph node
    assert forall|j: int| 0 <= j < n implies decode_node_spec(avail, #[trigger] w.nodes[j])
        == Ok::<NodeInstanceV, CodecErrorV>(g.nodes[j]) by {
        assert(core_eq(w.nodes[j], st.0.nodes[j]));
        assert(wf_node_matches(avail, g, j, st.0.nodes[j]));
        let inst = g.nodes[j];
        assert(node_conforms(avail, inst));
        let meta = avail_find(avail, inst.ty)->0;
        lemma_patch_unpatch(inst.ty, widgets_of_state(inst.state));
        lemma_rebuild_state(inst.state, meta.fields);
        assert(decode_node_spec(avail, w.nodes[j])->Ok_0 =~= inst);
    };
    lemma_decode_nodes_roundtrip(avail, g, w, n);
    // every link record decodes back to its graph link
    assert forall|t: int| 0 <= t < m implies decode_link_spec(w.nodes, #[trigger] w.links[t])
        == Ok::<LinkV, CodecErrorV>(g.links[t]) by {
        assert(wf_link_matches(st.0.nodes, g.links[t], w.links[t]));
        let l = g.links[t];
        assert(forall|j: int| 0 <= j < w.nodes.len() ==> (#[trigger] w.nodes[j].id) == j + 1);
        lemma_wf_find_ids(w.nodes, 0, sat_add(l.src_node, 1));
        lemma_wf_find_ids(w.nodes, 0, sat_add(l.dst_node, 1));
        assert(decode_link_spec(w.nodes, w.links[t])->Ok_0 =~= l);
    };
    lemma_decode_links_roundtrip(g, w, m);
    assert(decode_spec(avail, w)->Ok_0 =~= g);
}

/// Folding the node decoder over records that each restore their graph node
/// yields the graph's node list.
proof fn lemma_decode_nodes_roundtrip(
    avail: Seq<(Seq<char>, ProjNodeV)>,
    g: GraphV,
    w: WorkflowV,
    n: int,
)
    requires
        0 <= n <= g.nodes.len(),
        w.nodes.len() == g.nodes.len(),
        forall|j: int|
            0 <= j < w.nodes.len() ==> decode_node_spec(avail, #[trigger] w.nodes[j]) == Ok::<
                NodeInstanceV,
                CodecErrorV,
            >(g.nodes[j]),
    ensures
        decode_nodes_spec(avail, w.nodes, n) == Ok::<Seq<NodeInstanceV>, CodecErrorV>(
            g.nodes.take(n),
        ),
    decreases n,
{
    if n <= 0 {
        assert(g.nodes.take(0int) =~= Seq::<NodeInstanceV>::empty());
    } else {
        lemma_decode_nodes_roundtrip(avail, g, w, n - 1);
        assert(g.nodes.take(n - 1).push(g.nodes[n - 1]) =~= g.nodes.take(n));
    }
}

/// Folding the link decoder over records that each restore their graph link
/// yields the graph's link list.
proof fn lemma_decode_links_roundtrip(g: GraphV, w: WorkflowV, m: int)
    requires
        0 <= m <= g.links.len(),
        w.links.len() == g.links.len(),
        forall|t: int|
            0 <= t < w.links.len() ==> decode_link_spec(w.nodes, #[trigger] w.links[t]) == Ok::<
                LinkV,
                CodecErrorV,
            >(g.links[t]),
    ensures
        decode_links_spec(w.nodes, w.links, m) == Ok::<Seq<LinkV>, CodecErrorV>(g.links.take(m)),
    decreases m,
{
    if m <= 0 {
        assert(g.links.take(0int) =~= Seq::<LinkV>::empty());
    } else {
        lemma_decode_links_roundtrip(g, w, m - 1);
        assert(g.links.take(m - 1).push(g.links[m - 1]) =~= g.links.take(m));
    }
}


/// The field list of a catalog kind holds no connection inputs: the
/// conversion from a parsed schema routes connections to the edge lists.
pub proof fn lemma_field_inputs_no_connections(input: Seq<(Seq<char>, FieldV)>)
    ensures
        forall|i: int|
            0 <= i < crate::project::field_inputs(input).len() ==> !((
            #[trigger] crate::project::field_inputs(input)[i]).1 is Connection),
    decreases input.len(),
{
    if input.len() == 0 {
    } else {
        lemma_field_inputs_no_connections(input.drop_last());
    }
}

/// Instantiation meets the codec's hypothesis: the default field state of a
/// kind whose field list holds no connections lines up with that field
/// list, entry for entry.
pub proof fn lemma_default_state_conforms(fields: Seq<(Seq<char>, FieldV)>)
    requires
        forall|i: int| 0 <= i < fields.len() ==> !((#[trigger] fields[i]).1 is Connection),
    ensures
        state_conforms(crate::project::default_state_of(fields), fields),
    decreases fields.len(),
{
    if fields.len() == 0 {
        assert(crate::project::default_state_of(fields) =~= Seq::<(Seq<char>, FieldV)>::empty());
    } else {
        assert(forall|i: int|
            0 <= i < fields.drop_first().len() ==> !((
            #[trigger] fields.drop_first()[i]).1 is Connection));
        lemma_default_state_conforms(fields.drop_first());
        let st = crate::project::default_state_of(fields);
        let rest = crate::project::default_state_of(fields.drop_first());
        match fields[0].1 {
            FieldV::Unknown => {
                assert(st =~= rest);
            },
            FieldV::Connection { .. } => {
                assert(false);
            },
            _ => {
                let head = (fields[0].0, fields[0].1.default_state_spec());
                assert(st =~= seq![head] + rest);
                assert(st[0] == head);
                assert(st.drop_first() =~= rest);
                assert(field_conforms(head.1, fields[0].1));
            },
        }
    }
}

/// A node freshly added from the catalog conforms to the catalog: its kind
/// is declared, its state is the declared fields' default state, and it
/// carries no output image. Such nodes satisfy the round-trip law's
/// hypothesis from the moment they are created.
pub proof fn lemma_default_instance_conforms(
    avail: Seq<(Seq<char>, ProjNodeV)>,
    ty: Seq<char>,
    pos: (i64, i64),
    meta: ProjNodeV,
)
    requires
        avail_find(avail, ty) == Some(meta),
        forall|i: int| 0 <= i < meta.fields.len() ==> !((#[trigger] meta.fields[i]).1 is Connection),
    ensures
        node_conforms(
            avail,
            NodeInstanceV {
                ty,
                pos,
                state: crate::project::default_state_of(meta.fields),
                image: None,
            },
        ),
{
    lemma_default_state_conforms(meta.fields);
}

} // verus!

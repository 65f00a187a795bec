//! The prompt compiler: flattens a graph into the execution request the
//! remote engine consumes.
//!
//! The compiler walks the links; each link lazily materializes a prompt
//! entry for both of its endpoint nodes, keyed by the node's index. Every
//! field of a materialized node becomes a literal value; the consuming slot
//! of each link is then overwritten with a reference to the producer's node
//! index and output slot. Only nodes reachable through at least one link
//! are materialized: an isolated node never reaches the request. A link
//! that does not resolve against the current catalog is skipped with its
//! consumer entry already materialized; compilation itself never fails.

use vstd::prelude::*;
use vstd::string::StringExecFns;
use vstd::pervasive::VecAdditionalExecFns;
use crate::field::FieldV;
use crate::field::NodeField;
use crate::field::Real;
use crate::graph::Graph;
use crate::graph::GraphV;
use crate::graph::LinkV;
use crate::graph::NodeInstance;
use crate::graph::NodeInstanceV;
use crate::graph::NodeType;
use crate::project::Node;
use crate::project::ProjNodeV;
use crate::project::avail_find;
use crate::project::avail_view;
use crate::schema::state_view;
use crate::workflow::Workflow;
use crate::workflow::WorkflowV;

verus! {

/// The session identifier the compiler stamps on a request when no other
/// is supplied.
pub const DEFAULT_CLIENT_ID: &'static str = "f9e9494bb05849738d26b3b914e3eec2";

/// One input value of a prompt entry: a reference to a producing node's
/// output, or a literal.
#[derive(PartialEq, Eq, Debug)]
pub enum PromptInputValue {
    Link { node_id: usize, input_idx: usize },
    Text(String),
    Float(Real),
    Integer(i64),
}

/// Mathematical model of a prompt input value.
pub enum PromptValueV {
    Link { node_id: usize, input_idx: usize },
    Text(Seq<char>),
    Float(Real),
    Integer(i64),
}

impl View for PromptInputValue {
    type V = PromptValueV;

    open spec fn view(&self) -> PromptValueV {
        match self {
            PromptInputValue::Link { node_id, input_idx } => PromptValueV::Link {
                node_id: *node_id,
                input_idx: *input_idx,
            },
            PromptInputValue::Text(s) => PromptValueV::Text(s@),
            PromptInputValue::Float(v) => PromptValueV::Float(*v),
            PromptInputValue::Integer(v) => PromptValueV::Integer(*v),
        }
    }
}

/// One entry of the execution request: the node's kind and its named
/// inputs.
#[derive(PartialEq, Eq, Debug)]
pub struct PromptNode {
    pub inputs: Vec<(String, PromptInputValue)>,
    pub class_type: String,
}

/// Mathematical model of a prompt entry.
#[verifier::ext_equal]
pub struct PromptNodeV {
    pub inputs: Seq<(Seq<char>, PromptValueV)>,
    pub class_type: Seq<char>,
}

impl View for PromptNode {
    type V = PromptNodeV;

    open spec fn view(&self) -> PromptNodeV {
        PromptNodeV {
            inputs: self.inputs@.map_values(|p: (String, PromptInputValue)| (p.0@, p.1@)),
            class_type: self.class_type@,
        }
    }
}

/// The model of a prompt map.
pub open spec fn prompt_view(s: Seq<(usize, PromptNode)>) -> Seq<(usize, PromptNodeV)> {
    s.map_values(|p: (usize, PromptNode)| (p.0, p.1@))
}

/// The document embedded in a request so that the engine's own tool can
/// reopen what was submitted.
#[derive(PartialEq, Eq, Debug)]
pub struct ExtraPngInfo {
    pub workflow: Workflow,
}

/// The optional extra payload of a request.
#[derive(PartialEq, Eq, Debug)]
pub struct ExtraData {
    pub extra_pnginfo: ExtraPngInfo,
}

/// The execution request: a per-session client identifier, the prompt map
/// keyed by node index, and an optional embedded document.
#[derive(PartialEq, Eq, Debug)]
pub struct WorkflowPrompt {
    pub client_id: String,
    pub prompt: Vec<(usize, PromptNode)>,
    pub extra_data: Option<ExtraData>,
}

/// Mathematical model of an execution request.
#[verifier::ext_equal]
pub struct WorkflowPromptV {
    pub client_id: Seq<char>,
    pub prompt: Seq<(usize, PromptNodeV)>,
    pub extra: Option<WorkflowV>,
}

impl View for WorkflowPrompt {
    type V = WorkflowPromptV;

    open spec fn view(&self) -> WorkflowPromptV {
        WorkflowPromptV {
            client_id: self.client_id@,
            prompt: prompt_view(self.prompt@),
            extra: match self.extra_data {
                Some(ref e) => Some(e.extra_pnginfo.workflow@),
                None => None,
            },
        }
    }
}

/// The literal a field contributes to its node's prompt entry: integers,
/// floating-point values and text as they stand, and a drop-down's selected
/// option label, or empty text when nothing valid is selected. Booleans,
/// connections and unknown inputs contribute no literal.
pub open spec fn value_of_field(f: FieldV) -> Option<PromptValueV> {
    match f {
        FieldV::Int { state, .. } => Some(PromptValueV::Integer(state)),
        FieldV::Float { state, .. } => Some(PromptValueV::Float(state)),
        FieldV::Str { state, .. } => Some(PromptValueV::Text(state)),
        FieldV::Select { options, state } => Some(
            PromptValueV::Text(
                match state {
                    Some(i) => if i < options.len() {
                        options[i as int]
                    } else {
                        Seq::empty()
                    },
                    None => Seq::empty(),
                },
            ),
        ),
        _ => None,
    }
}

/// The named literal inputs of one node's state, in state order.
pub open spec fn prompt_inputs_of(state: Seq<(Seq<char>, FieldV)>) -> Seq<
    (Seq<char>, PromptValueV),
>
    decreases state.len(),
{
    if state.len() == 0 {
        Seq::empty()
    } else {
        (match value_of_field(state[0].1) {
            Some(v) => seq![(state[0].0, v)],
            None => Seq::<(Seq<char>, PromptValueV)>::empty(),
        }) + prompt_inputs_of(state.drop_first())
    }
}

/// The prompt entry freshly materialized for one node.
pub open spec fn prompt_node_of(inst: NodeInstanceV) -> PromptNodeV {
    PromptNodeV { inputs: prompt_inputs_of(inst.state), class_type: inst.ty }
}

/// The position of the first prompt entry keyed by the given node index.
pub open spec fn prompt_find(p: Seq<(usize, PromptNodeV)>, id: usize) -> Option<int>
    decreases p.len(),
{
    if p.len() == 0 {
        None
    } else if p[0].0 == id {
        Some(0int)
    } else {
        match prompt_find(p.drop_first(), id) {
            Some(i) => Some(i + 1),
            None => None,
        }
    }
}

/// The prompt map with an entry for the given node: reused if already
/// materialized, appended otherwise.
pub open spec fn ensure_entry(p: Seq<(usize, PromptNodeV)>, id: usize, inst: NodeInstanceV) -> Seq<
    (usize, PromptNodeV),
> {
    if prompt_find(p, id) is Some {
        p
    } else {
        p.push((id, prompt_node_of(inst)))
    }
}

/// The position of the first input with the given name.
pub open spec fn input_find(inputs: Seq<(Seq<char>, PromptValueV)>, name: Seq<char>) -> Option<
    int,
>
    decreases inputs.len(),
{
    if inputs.len() == 0 {
        None
    } else if inputs[0].0 == name {
        Some(0int)
    } else {
        match input_find(inputs.drop_first(), name) {
            Some(i) => Some(i + 1),
            None => None,
        }
    }
}

/// The named inputs with one name bound to a new value: the first input of
/// that name is overwritten, or the pair appended when none carries it.
pub open spec fn map_set(
    inputs: Seq<(Seq<char>, PromptValueV)>,
    name: Seq<char>,
    v: PromptValueV,
) -> Seq<(Seq<char>, PromptValueV)> {
    match input_find(inputs, name) {
        Some(j) => inputs.update(j, (name, v)),
        None => inputs.push((name, v)),
    }
}

/// The prompt map with one named input of one entry bound to a new value.
pub open spec fn set_entry_input(
    p: Seq<(usize, PromptNodeV)>,
    id: usize,
    name: Seq<char>,
    v: PromptValueV,
) -> Seq<(usize, PromptNodeV)> {
    match prompt_find(p, id) {
        Some(j) => p.update(
            j,
            (
                id,
                PromptNodeV {
                    inputs: map_set(p[j].1.inputs, name, v),
                    class_type: p[j].1.class_type,
                },
            ),
        ),
        None => p,
    }
}

/// One link compiled into the prompt map: both endpoint nodes are
/// materialized, and the consuming slot's field is bound to a reference to
/// the producer. A link out of the node list is ignored; one whose consumer
/// kind or slot does not resolve against the catalog is skipped after the
/// consumer was materialized.
pub open spec fn compile_step(
    avail: Seq<(Seq<char>, ProjNodeV)>,
    g: GraphV,
    p: Seq<(usize, PromptNodeV)>,
    l: LinkV,
) -> Seq<(usize, PromptNodeV)> {
    if l.src_node < g.nodes.len() && l.dst_node < g.nodes.len() {
        let dst = g.nodes[l.dst_node as int];
        let p1 = ensure_entry(p, l.dst_node, dst);
        match avail_find(avail, dst.ty) {
            Some(meta) => if l.dst_slot < meta.inputs.len() {
                let vlink = PromptValueV::Link { node_id: l.src_node, input_idx: l.src_slot };
                let p2 = set_entry_input(p1, l.dst_node, meta.inputs[l.dst_slot as int].0, vlink);
                ensure_entry(p2, l.src_node, g.nodes[l.src_node as int])
            } else {
                p1
            },
            None => p1,
        }
    } else {
        p
    }
}

/// The prompt map after the first `k` links were compiled in order.
pub open spec fn compile_links(
    avail: Seq<(Seq<char>, ProjNodeV)>,
    g: GraphV,
    k: int,
) -> Seq<(usize, PromptNodeV)>
    decreases k,
{
    if k <= 0 {
        Seq::empty()
    } else {
        compile_step(avail, g, compile_links(avail, g, k - 1), g.links[k - 1])
    }
}

/// The whole graph compiled: every link in order. A deterministic function
/// of the catalog and the graph alone.
pub open spec fn compile_spec(avail: Seq<(Seq<char>, ProjNodeV)>, g: GraphV) -> Seq<
    (usize, PromptNodeV),
> {
    compile_links(avail, g, g.links.len() as int)
}

/// Compiling the same graph against the same catalog twice, without
/// mutation in between, yields identical prompt output.
pub proof fn lemma_compile_idempotent(
    avail: Seq<(Seq<char>, ProjNodeV)>,
    g: GraphV,
    p1: Seq<(usize, PromptNodeV)>,
    p2: Seq<(usize, PromptNodeV)>,
)
    requires
        p1 == compile_spec(avail, g),
        p2 == compile_spec(avail, g),
    ensures
        p1 == p2,
{
}

/// The literal a field contributes to a prompt entry, or `None` for a field
/// kind that has no prompt literal.
pub fn from_field(field: &NodeField) -> (r: Option<PromptInputValue>)
    ensures
        match value_of_field(field@) {
            Some(v) => r is Some && r->0@ == v,
            None => r is None,
        },
{
    match field {
        NodeField::IntInput(input) => Some(PromptInputValue::Integer(input.state)),
        NodeField::FloatInput(input) => Some(PromptInputValue::Float(input.state)),
        NodeField::StringInput(input) => Some(PromptInputValue::Text(input.state.clone())),
        NodeField::Select { options, state } => {
            let text = match state {
                Some(s) => if *s < options.len() {
                    options[*s].clone()
                } else {
                    String::new()
                },
                None => String::new(),
            };
            Some(PromptInputValue::Text(text))
        },
        _ => None,
    }
}

/// The position of the first prompt entry keyed by the given node index.
fn prompt_find_exec(p: &Vec<(usize, PromptNode)>, id: usize) -> (r: Option<usize>)
    ensures
        match r {
            Some(j) => {
                &&& j < p@.len()
                &&& prompt_find(prompt_view(p@), id) == Some(j as int)
            },
            None => prompt_find(prompt_view(p@), id) is None,
        },
{
    let ghost pv = prompt_view(p@);
    let mut i: usize = 0;
    proof {
        assert(pv.skip(0int) =~= pv);
    }
    while i < p.len()
        invariant
            i <= p@.len(),
            pv == prompt_view(p@),
            pv.len() == p@.len(),
            match prompt_find(pv.skip(i as int), id) {
                Some(j) => prompt_find(pv, id) == Some(j + i),
                None => prompt_find(pv, id) is None,
            },
        decreases p@.len() - i,
    {
        proof {
            assert(pv.skip(i as int)[0] == pv[i as int]);
            assert(pv.skip(i as int).drop_first() =~= pv.skip(i as int + 1));
        }
        if p[i].0 == id {
            return Some(i);
        }
        i = i + 1;
    }
    None
}

/// Materializes the prompt entry of one node if it is not there yet.
fn ensure_entry_exec(p: &mut Vec<(usize, PromptNode)>, id: usize, inst: &NodeInstance)
    ensures
        prompt_view(final(p)@) == ensure_entry(prompt_view(old(p)@), id, inst@),
{
    match prompt_find_exec(p, id) {
        Some(_) => (),
        None => {
            let ghost sv = state_view(inst.state@);
            let mut inputs: Vec<(String, PromptInputValue)> = Vec::new();
            let mut i: usize = 0;
            proof {
                assert(sv.skip(0int) =~= sv);
                assert(inputs@.map_values(|q: (String, PromptInputValue)| (q.0@, q.1@)) =~= Seq::<
                    (Seq<char>, PromptValueV),
                >::empty());
            }
            while i < inst.state.len()
                invariant
                    i <= inst.state@.len(),
                    sv == state_view(inst.state@),
                    sv.len() == inst.state@.len(),
                    prompt_inputs_of(sv) == inputs@.map_values(
                        |q: (String, PromptInputValue)| (q.0@, q.1@),
                    ) + prompt_inputs_of(sv.skip(i as int)),
                decreases inst.state@.len() - i,
            {
                proof {
                    assert(sv.skip(i as int)[0] == sv[i as int]);
                    assert(sv.skip(i as int).drop_first() =~= sv.skip(i as int + 1));
                }
                match from_field(&inst.state[i].1) {
                    Some(v) => {
                        let ghost prev = inputs@;
                        inputs.push((inst.state[i].0.clone(), v));
                        proof {
                            assert(inputs@.map_values(
                                |q: (String, PromptInputValue)| (q.0@, q.1@),
                            ) =~= prev.map_values(|q: (String, PromptInputValue)| (q.0@, q.1@))
                                .push((sv[i as int].0, inputs@.last().1@)));
                        }
                    },
                    None => (),
                }
                i = i + 1;
            }
            proof {
                assert(sv.skip(sv.len() as int) =~= Seq::<(Seq<char>, FieldV)>::empty());
            }
            let entry = PromptNode { inputs, class_type: inst.ty.0.clone() };
            proof {
                assert(entry@ =~= prompt_node_of(inst@));
            }
            let ghost prevp = p@;
            p.push((id, entry));
            proof {
                assert(prompt_view(p@) =~= prompt_view(prevp).push((id, p@.last().1@)));
            }
        },
    }
}

/// Binds one named input of one prompt entry to a new value; nothing
/// happens when the entry is absent.
fn set_entry_input_exec(
    p: &mut Vec<(usize, PromptNode)>,
    id: usize,
    name: &String,
    v: PromptInputValue,
)
    ensures
        prompt_view(final(p)@) == set_entry_input(prompt_view(old(p)@), id, name@, v@),
{
    let ghost prevp = p@;
    let ghost vv = v@;
    match prompt_find_exec(p, id) {
        Some(j) => {
            let mut pair = (0usize, PromptNode { inputs: Vec::new(), class_type: String::new() });
            p.set_and_swap(j, &mut pair);
            let ghost entry_prev = pair.1@;
            let ghost iv = entry_prev.inputs;
            let found = input_find_exec(&pair.1.inputs, name);
            match found {
                Some(t) => {
                    let mut ip = (String::new(), PromptInputValue::Integer(0));
                    pair.1.inputs.set_and_swap(t, &mut ip);
                    ip = (name.clone(), v);
                    pair.1.inputs.set_and_swap(t, &mut ip);
                    proof {
                        assert(pair.1@.inputs =~= iv.update(t as int, (name@, vv)));
                        assert(pair.1@.inputs =~= map_set(iv, name@, vv));
                    }
                },
                None => {
                    let ghost prev_inputs = pair.1.inputs@;
                    pair.1.inputs.push((name.clone(), v));
                    proof {
                        assert(pair.1@.inputs =~= iv.push((name@, vv)));
                        assert(pair.1@.inputs =~= map_set(iv, name@, vv));
                    }
                },
            }
            pair.0 = id;
            p.set_and_swap(j, &mut pair);
            proof {
                assert(prompt_view(p@) =~= prompt_view(prevp).update(
                    j as int,
                    (id, p@[j as int].1@),
                ));
                assert(p@[j as int].1@ =~= (PromptNodeV {
                    inputs: map_set(entry_prev.inputs, name@, vv),
                    class_type: entry_prev.class_type,
                }));
                assert(prompt_view(p@) =~= set_entry_input(prompt_view(prevp), id, name@, vv));
            }
        },
        None => (),
    }
}

/// The position of the first input with the given name.
fn input_find_exec(inputs: &Vec<(String, PromptInputValue)>, name: &String) -> (r: Option<usize>)
    ensures
        match r {
            Some(j) => {
                &&& j < inputs@.len()
                &&& input_find(
                    inputs@.map_values(|q: (String, PromptInputValue)| (q.0@, q.1@)),
                    name@,
                ) == Some(j as int)
            },
            None => input_find(
                inputs@.map_values(|q: (String, PromptInputValue)| (q.0@, q.1@)),
                name@,
            ) is None,
        },
{
    let ghost iv = inputs@.map_values(|q: (String, PromptInputValue)| (q.0@, q.1@));
    let mut i: usize = 0;
    proof {
        assert(iv.skip(0int) =~= iv);
    }
    while i < inputs.len()
        invariant
            i <= inputs@.len(),
            iv == inputs@.map_values(|q: (String, PromptInputValue)| (q.0@, q.1@)),
            iv.len() == inputs@.len(),
            match input_find(iv.skip(i as int), name@) {
                Some(j) => input_find(iv, name@) == Some(j + i),
                None => input_find(iv, name@) is None,
            },
        decreases inputs@.len() - i,
    {
        proof {
            assert(iv.skip(i as int)[0] == iv[i as int]);
            assert(iv.skip(i as int).drop_first() =~= iv.skip(i as int + 1));
        }
        if inputs[i].0.eq(name) {
            return Some(i);
        }
        i = i + 1;
    }
    None
}

impl WorkflowPrompt {
    /// An empty request under the default client identifier.
    pub fn new() -> (r: WorkflowPrompt)
        ensures
            r@.client_id == DEFAULT_CLIENT_ID@,
            r@.prompt == Seq::<(usize, PromptNodeV)>::empty(),
            r@.extra is None,
    {
        let mut client_id = String::new();
        client_id.append(DEFAULT_CLIENT_ID);
        let r = WorkflowPrompt { client_id, prompt: Vec::new(), extra_data: None };
        proof {
            assert(r@.prompt =~= Seq::<(usize, PromptNodeV)>::empty());
        }
        r
    }

    /// Compiles a graph into an execution request against a catalog of node
    /// kinds: every link in order, as `compile_spec` describes. Compilation
    /// never fails; links that do not resolve are skipped.
    pub fn from_graph(available_nodes: &Vec<(NodeType, Node)>, graph: &Graph) -> (r:
        WorkflowPrompt)
        ensures
            r@.client_id == DEFAULT_CLIENT_ID@,
            r@.prompt == compile_spec(avail_view(available_nodes@), graph@),
            r@.extra is None,
    {
        let ghost avail = avail_view(available_nodes@);
        let ghost g = graph@;
        let mut wf = WorkflowPrompt::new();
        let links = graph.get_links();
        let m = links.len();
        let mut k: usize = 0;
        while k < m
            invariant
                k <= m,
                m == g.links.len(),
                crate::graph::links_view(links@) == g.links,
                g == graph@,
                avail == avail_view(available_nodes@),
                wf@.client_id == DEFAULT_CLIENT_ID@,
                wf@.extra is None,
                prompt_view(wf.prompt@) == compile_links(avail, g, k as int),
            decreases m - k,
        {
            proof {
                assert(links@[k as int]@ == g.links[k as int]);
            }
            let l = &links[k];
            if l.src_node < graph.get_nodes().len() && l.dst_node < graph.get_nodes().len() {
                match graph.get_node(l.dst_node) {
                    Some(dst) => {
                        ensure_entry_exec(&mut wf.prompt, l.dst_node, dst);
                        match crate::codec::lookup_meta(available_nodes, &dst.ty.0) {
                            Some(mi) => {
                                let meta = &available_nodes[mi].1;
                                if l.dst_slot < meta.inputs.len() {
                                    let field_name = &meta.inputs[l.dst_slot].0;
                                    let vlink = PromptInputValue::Link {
                                        node_id: l.src_node,
                                        input_idx: l.src_slot,
                                    };
                                    set_entry_input_exec(
                                        &mut wf.prompt,
                                        l.dst_node,
                                        field_name,
                                        vlink,
                                    );
                                    match graph.get_node(l.src_node) {
                                        Some(src) => {
                                            ensure_entry_exec(&mut wf.prompt, l.src_node, src);
                                        },
                                        None => {
                                            proof {
                                                assert(false);
                                            }
                                        },
                                    }
                                }
                            },
                            None => (),
                        }
                    },
                    None => {
                        proof {
                            assert(false);
                        }
                    },
                }
            }
            k = k + 1;
        }
        wf
    }
}

} // verus!

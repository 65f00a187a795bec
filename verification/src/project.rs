//! One editor tab's project: the catalog of available node kinds built from
//! the ingested schema, a fuzzy-search index over it, the editable graph and
//! the backing file path.

use vstd::prelude::*;
use vstd::string::StringExecFns;
use crate::field::FieldV;
use crate::field::NodeField;
use crate::graph::Graph;
use crate::graph::LinkType;
use crate::graph::NodeType;
use crate::schema;
use crate::schema::state_view;

verus! {

/// The search engine type of the `simsearch` crate, declared so that a
/// `SimSearch` value can live in a field; the core sees nothing inside it.
#[verifier::external_type_specification]
#[verifier::external_body]
#[verifier::reject_recursive_types(Id)]
pub struct ExSimSearch<Id>(simsearch::SimSearch<Id>) where Id: Eq + PartialEq + Clone + std::hash::Hash + Ord;

/// The ids that have been inserted into a search engine.
pub uninterp spec fn engine_ids(engine: &simsearch::SimSearch<String>) -> Set<Seq<char>>;

/// Relies on simsearch's `SimSearch::new`: a fresh engine holds no entries.
#[verifier::external_body]
fn engine_new() -> (r: simsearch::SimSearch<String>)
    ensures
        engine_ids(&r) == Set::<Seq<char>>::empty(),
{
    simsearch::SimSearch::new()
}

/// Relies on simsearch's `SimSearch::insert`: inserting keeps the previous
/// ids and adds this one; an id inserted twice has its content replaced.
#[verifier::external_body]
fn engine_insert(engine: &mut simsearch::SimSearch<String>, id: &String, content: &String)
    ensures
        engine_ids(final(engine)) == engine_ids(old(engine)).insert(id@),
{
    engine.insert(id.clone(), content.as_str())
}

/// Relies on simsearch's `SimSearch::search`: every id it returns was
/// inserted. In which order close matches come back is the engine's affair
/// and is not relied on.
#[verifier::external_body]
fn engine_search(engine: &simsearch::SimSearch<String>, pattern: &String) -> (r: Vec<String>)
    ensures
        forall|i: int| 0 <= i < r@.len() ==> engine_ids(engine).contains(#[trigger] r@[i]@),
{
    engine.search(pattern.as_str())
}

/// One available node kind as the editor presents it: its connection inputs
/// and outputs with their slot types, its editable fields, and its
/// presentation strings.
#[derive(PartialEq, Eq, Debug)]
pub struct Node {
    pub inputs: Vec<(String, LinkType)>,
    pub outputs: Vec<(String, LinkType)>,
    pub fields: Vec<(String, NodeField)>,
    pub name: String,
    pub description: String,
    pub category: String,
}

/// Mathematical model of an available node kind.
#[verifier::ext_equal]
pub struct ProjNodeV {
    pub inputs: Seq<(Seq<char>, Seq<char>)>,
    pub outputs: Seq<(Seq<char>, Seq<char>)>,
    pub fields: Seq<(Seq<char>, FieldV)>,
    pub name: Seq<char>,
    pub description: Seq<char>,
    pub category: Seq<char>,
}

/// The model of a list of named slot types.
pub open spec fn slots_view(s: Seq<(String, LinkType)>) -> Seq<(Seq<char>, Seq<char>)> {
    s.map_values(|p: (String, LinkType)| (p.0@, p.1@))
}

impl View for Node {
    type V = ProjNodeV;

    open spec fn view(&self) -> ProjNodeV {
        ProjNodeV {
            inputs: slots_view(self.inputs@),
            outputs: slots_view(self.outputs@),
            fields: state_view(self.fields@),
            name: self.name@,
            description: self.description@,
            category: self.category@,
        }
    }
}

/// The connection inputs of a parsed schema, in declared order, each with
/// its slot type.
pub open spec fn conn_inputs(input: Seq<(Seq<char>, FieldV)>) -> Seq<(Seq<char>, Seq<char>)>
    decreases input.len(),
{
    if input.len() == 0 {
        Seq::empty()
    } else {
        conn_inputs(input.drop_last()) + (match input.last().1 {
            FieldV::Connection { ty } => seq![(input.last().0, ty)],
            _ => Seq::<(Seq<char>, Seq<char>)>::empty(),
        })
    }
}

/// The non-connection inputs of a parsed schema, in declared order.
pub open spec fn field_inputs(input: Seq<(Seq<char>, FieldV)>) -> Seq<(Seq<char>, FieldV)>
    decreases input.len(),
{
    if input.len() == 0 {
        Seq::empty()
    } else {
        field_inputs(input.drop_last()) + (if input.last().1 is Connection {
            Seq::<(Seq<char>, FieldV)>::empty()
        } else {
            seq![input.last()]
        })
    }
}

/// The declared outputs: names zipped with their slot types; a surplus on
/// either side is dropped.
pub open spec fn zipped_outputs(names: Seq<Seq<char>>, tys: Seq<Seq<char>>) -> Seq<
    (Seq<char>, Seq<char>),
> {
    Seq::new(if names.len() <= tys.len() { names.len() } else { tys.len() },
        |i: int| (names[i], tys[i]))
}

/// The model of converting one parsed schema into an available node kind:
/// connection inputs become the edge list, the rest become fields, outputs
/// are names zipped with types, and the display name is shown.
pub open spec fn available_of(n: schema::NodeV) -> ProjNodeV {
    ProjNodeV {
        inputs: conn_inputs(n.input),
        outputs: zipped_outputs(n.output_name, n.output),
        fields: field_inputs(n.input),
        name: n.display_name,
        description: n.description,
        category: n.category,
    }
}

/// The default field state a node instance starts with: one entry per
/// declared field, with numeric state at the default, text at the default or
/// empty, and drop-downs unselected. Connections and unknown inputs
/// contribute no entry.
pub open spec fn default_state_of(fields: Seq<(Seq<char>, FieldV)>) -> Seq<(Seq<char>, FieldV)>
    decreases fields.len(),
{
    if fields.len() == 0 {
        Seq::empty()
    } else {
        (match fields[0].1 {
            FieldV::Connection { .. } => Seq::<(Seq<char>, FieldV)>::empty(),
            FieldV::Unknown => Seq::<(Seq<char>, FieldV)>::empty(),
            _ => seq![(fields[0].0, fields[0].1.default_state_spec())],
        }) + default_state_of(fields.drop_first())
    }
}

impl Clone for Node {
    fn clone(&self) -> (r: Self)
        ensures
            r@ == self@,
    {
        Node {
            inputs: clone_slots(&self.inputs),
            outputs: clone_slots(&self.outputs),
            fields: clone_state(&self.fields),
            name: self.name.clone(),
            description: self.description.clone(),
            category: self.category.clone(),
        }
    }
}

/// Clones a list of named slot types, keeping every entry's model.
pub fn clone_slots(v: &Vec<(String, LinkType)>) -> (r: Vec<(String, LinkType)>)
    ensures
        slots_view(r@) == slots_view(v@),
{
    let mut r: Vec<(String, LinkType)> = Vec::new();
    let mut i: usize = 0;
    while i < v.len()
        invariant
            i <= v@.len(),
            r@.len() == i,
            forall|j: int|
                #![trigger r@[j]]
                0 <= j < i ==> r@[j].0@ == v@[j].0@ && r@[j].1@ == v@[j].1@,
        decreases v@.len() - i,
    {
        let ghost prev = r@;
        r.push((v[i].0.clone(), v[i].1.clone()));
        proof {
            assert(r@[i as int].0@ == v@[i as int].0@);
            assert(r@[i as int].1@ == v@[i as int].1@);
            assert(forall|j: int| 0 <= j < i ==> r@[j] == prev[j]);
        }
        i = i + 1;
    }
    proof {
        assert(slots_view(r@) =~= slots_view(v@));
    }
    r
}

/// Clones a list of named fields, keeping every entry's model.
pub fn clone_state(v: &Vec<(String, NodeField)>) -> (r: Vec<(String, NodeField)>)
    ensures
        state_view(r@) == state_view(v@),
{
    let mut r: Vec<(String, NodeField)> = Vec::new();
    let mut i: usize = 0;
    while i < v.len()
        invariant
            i <= v@.len(),
            r@.len() == i,
            forall|j: int|
                #![trigger r@[j]]
                0 <= j < i ==> r@[j].0@ == v@[j].0@ && r@[j].1@ == v@[j].1@,
        decreases v@.len() - i,
    {
        let ghost prev = r@;
        r.push((v[i].0.clone(), v[i].1.clone()));
        proof {
            assert(r@[i as int].0@ == v@[i as int].0@);
            assert(r@[i as int].1@ == v@[i as int].1@);
            assert(forall|j: int| 0 <= j < i ==> r@[j] == prev[j]);
        }
        i = i + 1;
    }
    proof {
        assert(state_view(r@) =~= state_view(v@));
    }
    r
}

impl Node {
    /// The text the search index holds for this kind: name, description and
    /// category, space separated.
    pub fn search_string(&self) -> (r: String)
        ensures
            r@ == self@.name + " "@ + self@.description + " "@ + self@.category,
    {
        let mut s = self.name.clone();
        s.append(" ");
        s.append(self.description.as_str());
        s.append(" ");
        s.append(self.category.as_str());
        s
    }

    /// Builds the editor's view of one parsed schema kind: connections go to
    /// the edge lists, everything else to the fields, and outputs are the
    /// declared names zipped with their types.
    pub fn from_schema(n: &schema::Node) -> (r: Node)
        ensures
            r@ == available_of(n@),
    {
        let mut inputs: Vec<(String, LinkType)> = Vec::new();
        let mut fields: Vec<(String, NodeField)> = Vec::new();
        let mut i: usize = 0;
        proof {
            assert(state_view(n.input@).take(0int) =~= Seq::<(Seq<char>, FieldV)>::empty());
            assert(conn_inputs(state_view(n.input@).take(0int)) =~= slots_view(inputs@));
            assert(field_inputs(state_view(n.input@).take(0int)) =~= state_view(fields@));
        }
        while i < n.input.len()
            invariant
                i <= n.input@.len(),
                state_view(n.input@).len() == n.input@.len(),
                conn_inputs(state_view(n.input@).take(i as int)) == slots_view(inputs@),
                field_inputs(state_view(n.input@).take(i as int)) == state_view(fields@),
            decreases n.input@.len() - i,
        {
            proof {
                assert(state_view(n.input@).take(i as int + 1).drop_last() =~= state_view(
                    n.input@,
                ).take(i as int));
                assert(state_view(n.input@).take(i as int + 1).last() == state_view(n.input@)[
                    i as int
                ]);
            }
            let name = &n.input[i].0;
            let field = &n.input[i].1;
            match field {
                NodeField::Connection(ty) => {
                    let ghost prev = inputs@;
                    inputs.push((name.clone(), LinkType(ty.clone())));
                    proof {
                        assert(slots_view(inputs@) =~= slots_view(prev).push(
                            (name@, ty@),
                        ));
                    }
                },
                _ => {
                    let ghost prev = fields@;
                    fields.push((name.clone(), field.clone()));
                    proof {
                        assert(state_view(fields@) =~= state_view(prev).push(
                            (name@, fields@.last().1@),
                        ));
                    }
                },
            }
            i = i + 1;
        }
        proof {
            assert(state_view(n.input@).take(n.input@.len() as int) =~= state_view(n.input@));
        }
        let mut outputs: Vec<(String, LinkType)> = Vec::new();
        let mut j: usize = 0;
        let count = if n.output_name.len() < n.output.len() {
            n.output_name.len()
        } else {
            n.output.len()
        };
        while j < count
            invariant
                j <= count,
                count <= n.output_name@.len(),
                count <= n.output@.len(),
                outputs@.len() == j,
                forall|k: int|
                    #![trigger outputs@[k]]
                    0 <= k < j ==> outputs@[k].0@ == n.output_name@[k]@ && outputs@[k].1@
                        == n.output@[k]@,
            decreases count - j,
        {
            let ghost prev = outputs@;
            outputs.push((n.output_name[j].clone(), LinkType(n.output[j].clone())));
            proof {
                assert(outputs@[j as int].0@ == n.output_name@[j as int]@);
                assert(outputs@[j as int].1@ == n.output@[j as int]@);
                assert(forall|k: int| 0 <= k < j ==> outputs@[k] == prev[k]);
            }
            j = j + 1;
        }
        let r = Node {
            inputs,
            outputs,
            fields,
            name: n.display_name.clone(),
            description: n.description.clone(),
            category: n.category.clone(),
        };
        proof {
            assert(slots_view(r.outputs@) =~= zipped_outputs(n@.output_name, n@.output));
            assert(r@ =~= available_of(n@));
        }
        r
    }

    /// The default field state a fresh instance of this kind starts with.
    /// Connections and unknown inputs contribute no entry.
    pub fn default_state(&self) -> (r: Vec<(String, NodeField)>)
        ensures
            state_view(r@) == default_state_of(self@.fields),
    {
        let ghost fv = state_view(self.fields@);
        let mut r: Vec<(String, NodeField)> = Vec::new();
        let mut i: usize = 0;
        proof {
            assert(fv.skip(0int) =~= fv);
            assert(state_view(r@) =~= Seq::<(Seq<char>, FieldV)>::empty());
        }
        while i < self.fields.len()
            invariant
                i <= self.fields@.len(),
                fv == state_view(self.fields@),
                fv.len() == self.fields@.len(),
                default_state_of(fv) == state_view(r@) + default_state_of(fv.skip(i as int)),
            decreases self.fields@.len() - i,
        {
            proof {
                assert(fv.skip(i as int)[0] == fv[i as int]);
                assert(fv.skip(i as int).drop_first() =~= fv.skip(i as int + 1));
            }
            let name = &self.fields[i].0;
            let field = &self.fields[i].1;
            let is_entry = match field {
                NodeField::Connection(_) => false,
                NodeField::Unknown => false,
                _ => true,
            };
            if is_entry {
                let ghost prev = r@;
                r.push((name.clone(), field.with_default_state()));
                proof {
                    assert(state_view(r@) =~= state_view(prev).push((name@, r@.last().1@)));
                    assert(state_view(prev) + (seq![(fv[i as int].0, fv[i as int].1.default_state_spec())]
                        + default_state_of(fv.skip(i as int + 1))) =~= state_view(r@)
                        + default_state_of(fv.skip(i as int + 1)));
                }
            }
            i = i + 1;
        }
        proof {
            assert(fv.skip(fv.len() as int) =~= Seq::<(Seq<char>, FieldV)>::empty());
            assert(state_view(r@) + Seq::<(Seq<char>, FieldV)>::empty() =~= state_view(r@));
        }
        r
    }
}

/// Whether the catalog holds this exact entry.
pub open spec fn in_catalog(avail: Seq<(Seq<char>, ProjNodeV)>, p: (Seq<char>, ProjNodeV)) -> bool {
    exists|j: int| 0 <= j < avail.len() && avail[j] == p
}

/// The first catalog entry declared under the given kind identifier.
pub open spec fn avail_find(s: Seq<(Seq<char>, ProjNodeV)>, ty: Seq<char>) -> Option<ProjNodeV>
    decreases s.len(),
{
    if s.len() == 0 {
        None
    } else if s[0].0 == ty {
        Some(s[0].1)
    } else {
        avail_find(s.drop_first(), ty)
    }
}

/// The model of the available-node catalog.
pub open spec fn avail_view(s: Seq<(NodeType, Node)>) -> Seq<(Seq<char>, ProjNodeV)> {
    s.map_values(|p: (NodeType, Node)| (p.0@, p.1@))
}

/// One project tab: the available-node catalog with its search index, the
/// graph being edited, and the file the tab is bound to, if any.
pub struct Project {
    available_node_index: simsearch::SimSearch<String>,
    available_nodes: Vec<(NodeType, Node)>,
    graph: Graph,
    file_path: Option<String>,
}

/// Mathematical model of a project tab. The search index is not part of the
/// model: what the catalog holds is, and every search result is checked
/// against the catalog.
#[verifier::ext_equal]
pub struct ProjectV {
    pub available: Seq<(Seq<char>, ProjNodeV)>,
    pub graph: crate::graph::GraphV,
    pub file_path: Option<Seq<char>>,
}

impl View for Project {
    type V = ProjectV;

    closed spec fn view(&self) -> ProjectV {
        ProjectV {
            available: avail_view(self.available_nodes@),
            graph: self.graph@,
            file_path: match self.file_path {
                Some(ref p) => Some(p@),
                None => None,
            },
        }
    }
}

impl Project {
    /// A fresh project: empty catalog, empty graph, no file.
    pub fn new() -> (r: Project)
        ensures
            r@.available == Seq::<(Seq<char>, ProjNodeV)>::empty(),
            r@.graph.nodes == Seq::<crate::graph::NodeInstanceV>::empty(),
            r@.graph.links == Seq::<crate::graph::LinkV>::empty(),
            r@.file_path is None,
    {
        let r = Project {
            available_node_index: engine_new(),
            available_nodes: Vec::new(),
            graph: Graph::new(),
            file_path: None,
        };
        proof {
            assert(r@.available =~= Seq::<(Seq<char>, ProjNodeV)>::empty());
        }
        r
    }

    /// The graph being edited.
    pub fn graph(&self) -> (r: &Graph)
        ensures
            r@ == self@.graph,
    {
        &self.graph
    }

    /// Write access to the graph being edited; everything else of the
    /// project stays as it is.
    pub fn graph_mut(&mut self) -> (r: &mut Graph)
        ensures
            (*r)@ == old(self)@.graph,
            final(self)@ == (ProjectV { graph: (*final(r))@, ..old(self)@ }),
    {
        &mut self.graph
    }

    /// The file this tab is bound to, if it has been saved or opened.
    pub fn file_path(&self) -> (r: Option<&String>)
        ensures
            match r {
                Some(p) => self@.file_path == Some(p@),
                None => self@.file_path is None,
            },
    {
        self.file_path.as_ref()
    }

    /// Binds this tab to a file.
    pub fn set_file_path(&mut self, path: String)
        ensures
            final(self)@ == (ProjectV { file_path: Some(path@), ..old(self)@ }),
    {
        self.file_path = Some(path);
    }

    /// Replaces the catalog of available node kinds and rebuilds the search
    /// index over it.
    pub fn set_available_nodes(&mut self, nodes: Vec<(NodeType, Node)>)
        ensures
            final(self)@ == (ProjectV { available: avail_view(nodes@), ..old(self)@ }),
    {
        let ghost nodes_snap = nodes@;
        self.available_nodes = nodes;
        let mut engine = engine_new();
        let mut i: usize = 0;
        while i < self.available_nodes.len()
            invariant
                i <= self.available_nodes@.len(),
            decreases self.available_nodes@.len() - i,
        {
            let content = self.available_nodes[i].1.search_string();
            engine_insert(&mut engine, &self.available_nodes[i].0.0, &content);
            i = i + 1;
        }
        self.available_node_index = engine;
    }

    /// The catalog of available node kinds.
    pub fn available_nodes(&self) -> (r: &Vec<(NodeType, Node)>)
        ensures
            avail_view(r@) == self@.available,
    {
        &self.available_nodes
    }

    /// The catalog entries that match a search query, best first as the
    /// engine ranks them, at most ten. Every returned pair is an entry of
    /// the catalog.
    pub fn search_available_nodes(&self, query: &String) -> (r: Vec<(NodeType, Node)>)
        ensures
            r@.len() <= 10,
            forall|i: int|
                #![trigger r@[i]]
                0 <= i < r@.len() ==> in_catalog(self@.available, (r@[i].0@, r@[i].1@)),
    {
        let ids = engine_search(&self.available_node_index, query);
        let mut r: Vec<(NodeType, Node)> = Vec::new();
        let ghost mut witnesses: Seq<int> = Seq::empty();
        let mut i: usize = 0;
        while i < ids.len()
            invariant
                i <= ids@.len(),
                r@.len() <= 10,
                witnesses.len() == r@.len(),
                forall|k: int|
                    0 <= k < r@.len() ==> 0 <= witnesses[k] < self@.available.len()
                        && self@.available[witnesses[k]] == (r@[k].0@, r@[k].1@),
            decreases ids@.len() - i,
        {
            let full = r.len() >= 10;
            match if full { None } else { self.lookup_index(&ids[i]) } {
                Some(j) => {
                    let ghost prev = r@;
                    let pair = (self.available_nodes[j].0.clone(), self.available_nodes[j].1.clone());
                    r.push(pair);
                    proof {
                        let wprev = witnesses;
                        witnesses = witnesses.push(j as int);
                        assert(forall|k: int|
                            #![trigger r@[k]]
                            0 <= k < prev.len() ==> r@[k] == prev[k] && witnesses[k] == wprev[k]);
                        assert(witnesses[prev.len() as int] == j as int);
                        assert(self@.available[j as int] == (r@[prev.len() as int].0@, r@[
                            prev.len() as int
                        ].1@));
                        assert forall|k: int|
                            0 <= k < r@.len() implies 0 <= witnesses[k] < self@.available.len()
                            && self@.available[witnesses[k]] == (r@[k].0@, r@[k].1@) by {
                            if k < prev.len() {
                                assert(r@[k] == prev[k]);
                                assert(witnesses[k] == wprev[k]);
                                assert(0 <= wprev[k] < self@.available.len());
                                assert(self@.available[wprev[k]] == (prev[k].0@, prev[k].1@));
                            } else {
                                assert(witnesses[k] == j as int);
                                assert(self@.available[j as int] == (r@[k].0@, r@[k].1@));
                            }
                        };
                    }
                },
                None => (),
            }
            i = i + 1;
        }
        proof {
            assert forall|k: int|
                #![trigger r@[k]]
                0 <= k < r@.len() implies in_catalog(self@.available, (r@[k].0@, r@[k].1@)) by {
                assert(0 <= witnesses[k] < self@.available.len());
                assert(self@.available[witnesses[k]] == (r@[k].0@, r@[k].1@));
            };
        }
        r
    }

    /// The index of the first catalog entry whose kind identifier equals the
    /// given id string.
    fn lookup_index(&self, id: &String) -> (r: Option<usize>)
        ensures
            match r {
                Some(j) => {
                    &&& j < self@.available.len()
                    &&& self@.available[j as int].0 == id@
                },
                None => true,
            },
    {
        let mut i: usize = 0;
        while i < self.available_nodes.len()
            invariant
                i <= self.available_nodes@.len(),
            decreases self.available_nodes@.len() - i,
        {
            if self.available_nodes[i].0.0.eq(id) {
                return Some(i);
            }
            i = i + 1;
        }
        None
    }

    /// The first catalog entry declared under the given kind, cloned out, or
    /// `None` when the kind is not in the catalog.
    pub fn get_available_node(&self, id: &NodeType) -> (r: Option<Node>)
        ensures
            match r {
                Some(node) => avail_find(self@.available, id@) == Some(node@),
                None => avail_find(self@.available, id@) is None,
            },
    {
        let mut i: usize = 0;
        proof {
            assert(self@.available.skip(0int) =~= self@.available);
        }
        while i < self.available_nodes.len()
            invariant
                i <= self.available_nodes@.len(),
                self@.available.len() == self.available_nodes@.len(),
                match avail_find(self@.available.skip(i as int), id@) {
                    Some(n) => avail_find(self@.available, id@) == Some(n),
                    None => avail_find(self@.available, id@) is None,
                },
            decreases self.available_nodes@.len() - i,
        {
            proof {
                assert(self@.available.skip(i as int)[0] == self@.available[i as int]);
                assert(self@.available.skip(i as int).drop_first() =~= self@.available.skip(
                    i as int + 1,
                ));
            }
            if self.available_nodes[i].0.0.eq(&id.0) {
                return Some(self.available_nodes[i].1.clone());
            }
            i = i + 1;
        }
        None
    }
}


/// Builds the editor's catalog from a parsed descriptor batch, kind by
/// kind, in batch order.
pub fn available_from_batch(nodes: &Vec<(String, schema::Node)>) -> (r: Vec<(NodeType, Node)>)
    ensures
        r@.len() == nodes@.len(),
        forall|i: int|
            #![trigger r@[i]]
            0 <= i < r@.len() ==> r@[i].0@ == nodes@[i].0@ && r@[i].1@ == available_of(
                nodes@[i].1@,
            ),
{
    let mut r: Vec<(NodeType, Node)> = Vec::new();
    let mut i: usize = 0;
    while i < nodes.len()
        invariant
            i <= nodes@.len(),
            r@.len() == i,
            forall|j: int|
                #![trigger r@[j]]
                0 <= j < i ==> r@[j].0@ == nodes@[j].0@ && r@[j].1@ == available_of(
                    nodes@[j].1@,
                ),
        decreases nodes@.len() - i,
    {
        let ghost prev = r@;
        r.push((NodeType(nodes[i].0.clone()), Node::from_schema(&nodes[i].1)));
        proof {
            assert(forall|j: int| 0 <= j < i ==> r@[j] == prev[j]);
        }
        i = i + 1;
    }
    r
}

/// The catalog the placeholder set describes: three stand-in kinds, so the
/// editor stays usable when no schema could be fetched.
pub open spec fn placeholder_catalog() -> Seq<(Seq<char>, ProjNodeV)> {
    seq![
        (
            "A"@,
            ProjNodeV {
                inputs: seq![("Text"@, "TXT"@), ("Image"@, "IMG"@)],
                outputs: seq![("Text"@, "TXT"@), ("Image"@, "IMG"@)],
                fields: Seq::empty(),
                name: "A"@,
                description: "Node of type A"@,
                category: "Dummy"@,
            },
        ),
        (
            "B"@,
            ProjNodeV {
                inputs: seq![("Image"@, "IMG"@)],
                outputs: Seq::empty(),
                fields: Seq::empty(),
                name: "B"@,
                description: "Node of type B"@,
                category: "Dummy"@,
            },
        ),
        (
            "C"@,
            ProjNodeV {
                inputs: Seq::empty(),
                outputs: seq![("Text"@, "TXT"@), ("Text"@, "TXT"@)],
                fields: Seq::empty(),
                name: "C"@,
                description: "Node of type C"@,
                category: "Dummy"@,
            },
        ),
    ]
}

/// The built-in placeholder catalog the editor falls back to when the
/// remote schema cannot be fetched: a kind with a text and an image slot on
/// both sides, a sink with one image input, and a source with two text
/// outputs.
pub fn placeholder_nodes() -> (r: Vec<(NodeType, Node)>)
    ensures
        avail_view(r@) == placeholder_catalog(),
{
    let mut r: Vec<(NodeType, Node)> = Vec::new();
    let mut a_inputs: Vec<(String, LinkType)> = Vec::new();
    a_inputs.push((String::from_str("Text"), LinkType(String::from_str("TXT"))));
    a_inputs.push((String::from_str("Image"), LinkType(String::from_str("IMG"))));
    let mut a_outputs: Vec<(String, LinkType)> = Vec::new();
    a_outputs.push((String::from_str("Text"), LinkType(String::from_str("TXT"))));
    a_outputs.push((String::from_str("Image"), LinkType(String::from_str("IMG"))));
    r.push(
        (
            NodeType(String::from_str("A")),
            Node {
                inputs: a_inputs,
                outputs: a_outputs,
                fields: Vec::new(),
                name: String::from_str("A"),
                description: String::from_str("Node of type A"),
                category: String::from_str("Dummy"),
            },
        ),
    );
    let mut b_inputs: Vec<(String, LinkType)> = Vec::new();
    b_inputs.push((String::from_str("Image"), LinkType(String::from_str("IMG"))));
    r.push(
        (
            NodeType(String::from_str("B")),
            Node {
                inputs: b_inputs,
                outputs: Vec::new(),
                fields: Vec::new(),
                name: String::from_str("B"),
                description: String::from_str("Node of type B"),
                category: String::from_str("Dummy"),
            },
        ),
    );
    let mut c_outputs: Vec<(String, LinkType)> = Vec::new();
    c_outputs.push((String::from_str("Text"), LinkType(String::from_str("TXT"))));
    c_outputs.push((String::from_str("Text"), LinkType(String::from_str("TXT"))));
    r.push(
        (
            NodeType(String::from_str("C")),
            Node {
                inputs: Vec::new(),
                outputs: c_outputs,
                fields: Vec::new(),
                name: String::from_str("C"),
                description: String::from_str("Node of type C"),
                category: String::from_str("Dummy"),
            },
        ),
    );
    proof {
        assert(avail_view(r@) =~~= placeholder_catalog());
    }
    r
}

} // verus!

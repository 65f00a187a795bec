//! The editor's model and its single-writer intent loop.
//!
//! Every mutation of the shared state is an `Event` applied by `Model::apply`
//! — one logical writer drains the intent queue and applies one event at a
//! time, which rules out write races by construction. The surrounding
//! runtime owns the queue, the lock and the network; what each event does to
//! the state is decided here. File dialogs and persistence are boundary
//! concerns: the runtime reads or writes the document and hands the model
//! plain values.

use vstd::prelude::*;
use crate::field::Real;
use crate::field::float_applied;
use crate::field::int_applied;
use crate::field::option_applied;
use crate::field::text_applied;
use crate::graph::GraphV;
use crate::graph::Link;
use crate::graph::LinkV;
use crate::graph::NodeInstanceV;
use crate::graph::NodeType;
use crate::graph::drop_dst;
use crate::graph::node_field_edited;
use crate::graph::place_coord;
use crate::project::ProjectV;
use crate::project::avail_find;
use crate::project::default_state_of;
use crate::tabs::Tabs;
use crate::tabs::TabsV;

verus! {

/// One intent against the model, as the presentation layer or the
/// event-stream listener enqueues it.
#[derive(PartialEq, Eq, Debug)]
pub enum Event {
    SetNodePosition(usize, i64, i64),
    AddNode(NodeType),
    AddLink(Link),
    RemoveLink(usize),
    SelectTab(usize),
    CloseTab(usize),
    NewTab,
    SetCommandSearch(String),
    SetZoom(Real),
    SetOffset(i64, i64),
    SetNodeOutput { node: usize, output: String },
    SetFieldText { node_idx: usize, input: String, text: String },
    SetFieldInt { node_idx: usize, input: String, value: i64 },
    SetFieldFloat { node_idx: usize, input: String, value: Real },
    SetFieldOption { node_idx: usize, input: String, selection: Option<usize> },
}

/// The editor's model: the open tabs and the command-palette query.
pub struct Model {
    tabs: Tabs,
    command_search: String,
}

/// Mathematical model of the editor state.
#[verifier::ext_equal]
pub struct ModelV {
    pub tabs: TabsV,
    pub command_search: Seq<char>,
}

impl View for Model {
    type V = ModelV;

    closed spec fn view(&self) -> ModelV {
        ModelV { tabs: self.tabs@, command_search: self.command_search@ }
    }
}

/// `m_new` is `m_old` with the selected project rewritten as `rel`
/// describes; with no valid selection, nothing changes. The selection, the
/// other tabs and the search query are untouched.
pub open spec fn sel_project_updated(
    m_old: ModelV,
    m_new: ModelV,
    rel: spec_fn(ProjectV, ProjectV) -> bool,
) -> bool {
    match m_old.tabs.selected {
        Some(i) => if i < m_old.tabs.tabs.len() {
            &&& m_new.command_search == m_old.command_search
            &&& m_new.tabs.selected == m_old.tabs.selected
            &&& m_new.tabs.tabs.len() == m_old.tabs.tabs.len()
            &&& forall|j: int|
                0 <= j < m_old.tabs.tabs.len() && j != i ==> m_new.tabs.tabs[j]
                    == m_old.tabs.tabs[j]
            &&& rel(m_old.tabs.tabs[i as int], m_new.tabs.tabs[i as int])
        } else {
            m_new == m_old
        },
        None => m_new == m_old,
    }
}

/// `pn` is `po` with only its graph rewritten as `rel` describes.
pub open spec fn graph_only(
    po: ProjectV,
    pn: ProjectV,
    rel: spec_fn(GraphV, GraphV) -> bool,
) -> bool {
    &&& pn.available == po.available
    &&& pn.file_path == po.file_path
    &&& rel(po.graph, pn.graph)
}

impl Model {
    /// A fresh model: one tab, an empty search query.
    pub fn new() -> (r: Model)
        ensures
            r@.tabs.tabs.len() == 1,
            r@.tabs.selected == Some(0usize),
            r@.command_search == Seq::<char>::empty(),
    {
        Model { tabs: Tabs::new(), command_search: String::new() }
    }

    /// The open tabs.
    pub fn tabs(&self) -> (r: &Tabs)
        ensures
            r@ == self@.tabs,
    {
        &self.tabs
    }

    /// Write access to the open tabs.
    pub fn tabs_mut(&mut self) -> (r: &mut Tabs)
        ensures
            (*r)@ == old(self)@.tabs,
            final(self)@ == (ModelV { tabs: (*final(r))@, ..old(self)@ }),
    {
        &mut self.tabs
    }

    /// The command-palette query.
    pub fn command_search(&self) -> (r: &String)
        ensures
            r@ == self@.command_search,
    {
        &self.command_search
    }

    /// Replaces the command-palette query.
    pub fn set_command_search(&mut self, query: String)
        ensures
            final(self)@ == (ModelV { command_search: query@, ..old(self)@ }),
    {
        self.command_search = query;
    }

    /// Applies one intent to the model. Each arm of the contract says
    /// exactly what the event does; a stale index anywhere makes the event
    /// a no-op rather than a failure.
    pub fn apply(&mut self, event: Event)
        ensures
            match event {
                Event::SetNodePosition(idx, x, y) => sel_project_updated(
                    old(self)@,
                    final(self)@,
                    |po: ProjectV, pn: ProjectV| graph_only(
                        po,
                        pn,
                        |go: GraphV, gn: GraphV| if idx < go.nodes.len() {
                            gn == (GraphV {
                                nodes: go.nodes.update(
                                    idx as int,
                                    NodeInstanceV { pos: (x, y), ..go.nodes[idx as int] },
                                ),
                                ..go
                            })
                        } else {
                            gn == go
                        },
                    ),
                ),
                Event::AddNode(ty) => sel_project_updated(
                    old(self)@,
                    final(self)@,
                    |po: ProjectV, pn: ProjectV| graph_only(
                        po,
                        pn,
                        |go: GraphV, gn: GraphV| match avail_find(po.available, ty@) {
                            Some(meta) => gn == (GraphV {
                                nodes: go.nodes.push(
                                    NodeInstanceV {
                                        ty: ty@,
                                        pos: (place_coord(go.offset.0), place_coord(go.offset.1)),
                                        state: default_state_of(meta.fields),
                                        image: None,
                                    },
                                ),
                                ..go
                            }),
                            None => gn == go,
                        },
                    ),
                ),
                Event::AddLink(lnk) => sel_project_updated(
                    old(self)@,
                    final(self)@,
                    |po: ProjectV, pn: ProjectV| graph_only(
                        po,
                        pn,
                        |go: GraphV, gn: GraphV| gn == (GraphV {
                            links: drop_dst(go.links, lnk.dst_node, lnk.dst_slot).push(lnk@),
                            ..go
                        }),
                    ),
                ),
                Event::RemoveLink(i) => sel_project_updated(
                    old(self)@,
                    final(self)@,
                    |po: ProjectV, pn: ProjectV| graph_only(
                        po,
                        pn,
                        |go: GraphV, gn: GraphV| if i < go.links.len() {
                            gn == (GraphV { links: go.links.remove(i as int), ..go })
                        } else {
                            gn == go
                        },
                    ),
                ),
                Event::SelectTab(i) => final(self)@ == (ModelV {
                    tabs: TabsV {
                        tabs: old(self)@.tabs.tabs,
                        selected: if i < old(self)@.tabs.tabs.len() {
                            Some(i)
                        } else {
                            old(self)@.tabs.selected
                        },
                    },
                    ..old(self)@
                }),
                Event::CloseTab(i) => {
                    &&& final(self)@.command_search == old(self)@.command_search
                    &&& if i < old(self)@.tabs.tabs.len() {
                        final(self)@.tabs.tabs == old(self)@.tabs.tabs.remove(i as int)
                    } else {
                        final(self)@.tabs == old(self)@.tabs
                    }
                },
                Event::NewTab => {
                    &&& final(self)@.command_search == old(self)@.command_search
                    &&& final(self)@.tabs.tabs.len() == old(self)@.tabs.tabs.len() + 1
                    &&& forall|j: int|
                        0 <= j < old(self)@.tabs.tabs.len() ==> final(self)@.tabs.tabs[j] == old(
                            self,
                        )@.tabs.tabs[j]
                    &&& final(self)@.tabs.selected == Some(old(self)@.tabs.tabs.len() as usize)
                },
                Event::SetCommandSearch(q) => final(self)@ == (ModelV {
                    command_search: q@,
                    ..old(self)@
                }),
                Event::SetZoom(z) => sel_project_updated(
                    old(self)@,
                    final(self)@,
                    |po: ProjectV, pn: ProjectV| graph_only(
                        po,
                        pn,
                        |go: GraphV, gn: GraphV| gn == (GraphV { zoom: z, ..go }),
                    ),
                ),
                Event::SetOffset(x, y) => sel_project_updated(
                    old(self)@,
                    final(self)@,
                    |po: ProjectV, pn: ProjectV| graph_only(
                        po,
                        pn,
                        |go: GraphV, gn: GraphV| gn == (GraphV { offset: (x, y), ..go }),
                    ),
                ),
                Event::SetNodeOutput { node, output } => sel_project_updated(
                    old(self)@,
                    final(self)@,
                    |po: ProjectV, pn: ProjectV| graph_only(
                        po,
                        pn,
                        |go: GraphV, gn: GraphV| if node < go.nodes.len() {
                            gn == (GraphV {
                                nodes: go.nodes.update(
                                    node as int,
                                    NodeInstanceV {
                                        image: Some(output@),
                                        ..go.nodes[node as int]
                                    },
                                ),
                                ..go
                            })
                        } else {
                            gn == go
                        },
                    ),
                ),
                Event::SetFieldText { node_idx, input, text } => sel_project_updated(
                    old(self)@,
                    final(self)@,
                    |po: ProjectV, pn: ProjectV| graph_only(
                        po,
                        pn,
                        |go: GraphV, gn: GraphV| node_field_edited(
                            go,
                            node_idx,
                            input@,
                            |a: crate::field::FieldV, b: crate::field::FieldV| text_applied(
                                a,
                                text@,
                                b,
                            ),
                            gn,
                        ),
                    ),
                ),
                Event::SetFieldInt { node_idx, input, value } => sel_project_updated(
                    old(self)@,
                    final(self)@,
                    |po: ProjectV, pn: ProjectV| graph_only(
                        po,
                        pn,
                        |go: GraphV, gn: GraphV| node_field_edited(
                            go,
                            node_idx,
                            input@,
                            |a: crate::field::FieldV, b: crate::field::FieldV| b == int_applied(
                                a,
                                value,
                            ),
                            gn,
                        ),
                    ),
                ),
                Event::SetFieldFloat { node_idx, input, value } => sel_project_updated(
                    old(self)@,
                    final(self)@,
                    |po: ProjectV, pn: ProjectV| graph_only(
                        po,
                        pn,
                        |go: GraphV, gn: GraphV| node_field_edited(
                            go,
                            node_idx,
                            input@,
                            |a: crate::field::FieldV, b: crate::field::FieldV| b == float_applied(
                                a,
                                value,
                            ),
                            gn,
                        ),
                    ),
                ),
                Event::SetFieldOption { node_idx, input, selection } => sel_project_updated(
                    old(self)@,
                    final(self)@,
                    |po: ProjectV, pn: ProjectV| graph_only(
                        po,
                        pn,
                        |go: GraphV, gn: GraphV| node_field_edited(
                            go,
                            node_idx,
                            input@,
                            |a: crate::field::FieldV, b: crate::field::FieldV| b == option_applied(
                                a,
                                selection,
                            ),
                            gn,
                        ),
                    ),
                ),
            },
    {
        match event {
            Event::SelectTab(i) => {
                self.tabs.select_tab(i);
            },
            Event::CloseTab(i) => {
                self.tabs.close_tab(i);
            },
            Event::NewTab => {
                self.tabs.new_tab();
            },
            Event::SetCommandSearch(q) => {
                self.command_search = q;
            },
            Event::SetNodePosition(idx, x, y) => {
                match self.tabs.selected_tab() {
                    Some(i) => {
                        if i < self.tabs.len() {
                            let p = self.tabs.project_mut(i);
                            let g = p.graph_mut();
                            g.set_node_position(idx, x, y);
                        }
                    },
                    None => (),
                }
            },
            Event::AddNode(ty) => {
                match self.tabs.selected_tab() {
                    Some(i) => {
                        if i < self.tabs.len() {
                            let p = self.tabs.project_mut(i);
                            match p.get_available_node(&ty) {
                                Some(node) => {
                                    let state = node.default_state();
                                    let g = p.graph_mut();
                                    g.add_node(ty, state);
                                },
                                None => (),
                            }
                        }
                    },
                    None => (),
                }
            },
            Event::AddLink(lnk) => {
                match self.tabs.selected_tab() {
                    Some(i) => {
                        if i < self.tabs.len() {
                            let p = self.tabs.project_mut(i);
                            let g = p.graph_mut();
                            g.add_link(lnk);
                        }
                    },
                    None => (),
                }
            },
            Event::RemoveLink(idx) => {
                match self.tabs.selected_tab() {
                    Some(i) => {
                        if i < self.tabs.len() {
                            let p = self.tabs.project_mut(i);
                            let g = p.graph_mut();
                            g.remove_link(idx);
                        }
                    },
                    None => (),
                }
            },
            Event::SetZoom(z) => {
                match self.tabs.selected_tab() {
                    Some(i) => {
                        if i < self.tabs.len() {
                            let p = self.tabs.project_mut(i);
                            let g = p.graph_mut();
                            g.set_zoom(z);
                        }
                    },
                    None => (),
                }
            },
            Event::SetOffset(x, y) => {
                match self.tabs.selected_tab() {
                    Some(i) => {
                        if i < self.tabs.len() {
                            let p = self.tabs.project_mut(i);
                            let g = p.graph_mut();
                            g.set_offset((x, y));
                        }
                    },
                    None => (),
                }
            },
            Event::SetNodeOutput { node, output } => {
                match self.tabs.selected_tab() {
                    Some(i) => {
                        if i < self.tabs.len() {
                            let p = self.tabs.project_mut(i);
                            let g = p.graph_mut();
                            g.set_node_image(node, output);
                        }
                    },
                    None => (),
                }
            },
            Event::SetFieldText { node_idx, input, text } => {
                match self.tabs.selected_tab() {
                    Some(i) => {
                        if i < self.tabs.len() {
                            let p = self.tabs.project_mut(i);
                            let g = p.graph_mut();
                            g.set_field_text(node_idx, &input, text);
                        }
                    },
                    None => (),
                }
            },
            Event::SetFieldInt { node_idx, input, value } => {
                match self.tabs.selected_tab() {
                    Some(i) => {
                        if i < self.tabs.len() {
                            let p = self.tabs.project_mut(i);
                            let g = p.graph_mut();
                            g.set_field_int(node_idx, &input, value);
                        }
                    },
                    None => (),
                }
            },
            Event::SetFieldFloat { node_idx, input, value } => {
                match self.tabs.selected_tab() {
                    Some(i) => {
                        if i < self.tabs.len() {
                            let p = self.tabs.project_mut(i);
                            let g = p.graph_mut();
                            g.set_field_float(node_idx, &input, value);
                        }
                    },
                    None => (),
                }
            },
            Event::SetFieldOption { node_idx, input, selection } => {
                match self.tabs.selected_tab() {
                    Some(i) => {
                        if i < self.tabs.len() {
                            let p = self.tabs.project_mut(i);
                            let g = p.graph_mut();
                            g.set_field_option(node_idx, &input, selection);
                        }
                    },
                    None => (),
                }
            },
        }
    }

}

/// Execution progress of one queued request, as the engine's event stream
/// reports it.
#[derive(PartialEq, Eq, Debug)]
pub struct Status {
    pub exec_info: ExecInfo,
}

/// The engine's queue depth.
#[derive(PartialEq, Eq, Debug)]
pub struct ExecInfo {
    pub queue_remaining: usize,
}

/// One computed image, by its storage coordinates on the engine.
#[derive(PartialEq, Eq, Debug)]
pub struct ImageOutput {
    pub filename: String,
    pub subfolder: String,
    pub ty: String,
}

/// Everything one executed node produced.
#[derive(PartialEq, Eq, Debug)]
pub struct NodeOutput {
    pub images: Vec<ImageOutput>,
}

/// One message of the engine's asynchronous event stream.
#[derive(PartialEq, Eq, Debug)]
pub enum Message {
    Status { status: Status },
    ExecutionStart { prompt_id: Option<String> },
    ExecutionCached { prompt_id: String, nodes: Vec<String> },
    Executing { node: Option<String>, prompt_id: Option<String> },
    Progress { node: String, value: usize, max: usize, prompt_id: String },
    Executed { node: String, output: NodeOutput, prompt_id: String },
}

/// The one routing decision the event stream asks of the core: a message
/// produces a cached-output update exactly when it reports an executed node
/// with at least one image; the update names that node and the first
/// image's filename.
pub fn executed_output(msg: &Message) -> (r: Option<(&String, &String)>)
    ensures
        match msg {
            Message::Executed { node, output, .. } => if output.images@.len() > 0 {
                match r {
                    Some(p) => p.0@ == node@ && p.1@ == output.images@[0].filename@,
                    None => false,
                }
            } else {
                r is None
            },
            _ => r is None,
        },
{
    match msg {
        Message::Executed { node, output, .. } => if output.images.len() > 0 {
            Some((node, &output.images[0].filename))
        } else {
            None
        },
        _ => None,
    }
}

} // verus!

use kira::field::IntInput;
use kira::field::NodeField;
use kira::field::Real;
use kira::graph::LinkType;
use kira::graph::NodeType;
use kira::linkedit::attach_to_input;
use kira::linkedit::begin_from_output;
use kira::linkedit::make_link;
use kira::linkedit::Floating;
use kira::linkedit::LinkEditAction;
use kira::linkedit::LinkError;
use kira::model::executed_output;
use kira::model::Event;
use kira::model::ImageOutput;
use kira::model::Message;
use kira::model::Model;
use kira::model::NodeOutput;
use kira::project::available_from_batch;
use kira::project::placeholder_nodes;
use kira::project::Node;
use kira::project::Project;
use kira::schema::parse_batch;
use kira::schema::RawNode;
use kira::schema::RawValue;
use kira::tabs::Tabs;

fn slot(name: &str, ty: &str) -> (String, LinkType) {
    (name.to_string(), LinkType(ty.to_string()))
}

fn catalog() -> Vec<(NodeType, Node)> {
    vec![
        (
            NodeType("A".to_string()),
            Node {
                inputs: vec![],
                outputs: vec![slot("Text", "TXT"), slot("Image", "IMG")],
                fields: vec![],
                name: "A".to_string(),
                description: "producer".to_string(),
                category: "test".to_string(),
            },
        ),
        (
            NodeType("B".to_string()),
            Node {
                inputs: vec![slot("Text", "TXT")],
                outputs: vec![],
                fields: vec![],
                name: "B".to_string(),
                description: "consumer".to_string(),
                category: "test".to_string(),
            },
        ),
    ]
}

#[test]
fn link_creation_carries_the_shared_slot_type() {
    let avail = catalog();
    let mut p = Project::new();
    p.set_available_nodes(catalog());
    let g = p.graph_mut();
    g.add_node(NodeType("A".to_string()), vec![]);
    g.add_node(NodeType("B".to_string()), vec![]);
    let l = make_link(&avail, p.graph(), 0, 0, 1, 0).unwrap();
    assert_eq!(l.ty.0, "TXT");
    assert_eq!((l.src_node, l.src_slot, l.dst_node, l.dst_slot), (0, 0, 1, 0));
    // an image output may not feed a text input
    assert_eq!(
        make_link(&avail, p.graph(), 0, 1, 1, 0).unwrap_err(),
        LinkError::TypeMismatch
    );
    assert_eq!(
        make_link(&avail, p.graph(), 5, 0, 1, 0).unwrap_err(),
        LinkError::BadSrcNode
    );
    assert_eq!(
        make_link(&avail, p.graph(), 0, 7, 1, 0).unwrap_err(),
        LinkError::BadSrcSlot
    );
}

#[test]
fn dragging_a_link_from_output_to_input() {
    let avail = catalog();
    let mut p = Project::new();
    p.set_available_nodes(catalog());
    let g = p.graph_mut();
    g.add_node(NodeType("A".to_string()), vec![]);
    g.add_node(NodeType("B".to_string()), vec![]);
    let (floating, action) = begin_from_output(&avail, p.graph(), Floating::Idle, 0, 0);
    assert_eq!(action, LinkEditAction::Keep);
    match &floating {
        Floating::SrcAttached { node, slot, ty } => {
            assert_eq!((*node, *slot), (0, 0));
            assert_eq!(ty.0, "TXT");
        }
        other => panic!("expected a loose source end, got {:?}", other),
    }
    let (floating, action) = attach_to_input(&avail, p.graph(), floating, 1, 0);
    assert_eq!(floating, Floating::Idle);
    match action {
        LinkEditAction::AddLink(l) => {
            assert_eq!((l.src_node, l.src_slot, l.dst_node, l.dst_slot), (0, 0, 1, 0));
            assert_eq!(l.ty.0, "TXT");
        }
        other => panic!("expected an add-link action, got {:?}", other),
    }
}

#[test]
fn dragging_from_a_connected_output_detaches_the_link() {
    let avail = catalog();
    let mut p = Project::new();
    p.set_available_nodes(catalog());
    {
        let g = p.graph_mut();
        g.add_node(NodeType("A".to_string()), vec![]);
        g.add_node(NodeType("B".to_string()), vec![]);
    }
    let l = make_link(&avail, p.graph(), 0, 0, 1, 0).unwrap();
    p.graph_mut().add_link(l);
    let (floating, action) = begin_from_output(&avail, p.graph(), Floating::Idle, 0, 0);
    assert_eq!(action, LinkEditAction::RemoveLink(0));
    match floating {
        Floating::DstAttached { node, slot, ty } => {
            assert_eq!((node, slot), (1, 0));
            assert_eq!(ty.0, "TXT");
        }
        other => panic!("expected a loose destination end, got {:?}", other),
    }
}

#[test]
fn adding_a_node_instantiates_one_state_entry_per_field() {
    // three declared inputs: two connections and one field
    let raw = RawNode {
        required: vec![
            ("image".to_string(), vec![RawValue::Str("IMAGE".into())]),
            ("mask".to_string(), vec![RawValue::Str("MASK".into())]),
            (
                "steps".to_string(),
                vec![
                    RawValue::Str("INT".into()),
                    RawValue::Obj(vec![
                        (
                            "default".to_string(),
                            RawValue::Num {
                                int_part: 20,
                                bits: 20.0f64.to_bits(),
                            },
                        ),
                        (
                            "min".to_string(),
                            RawValue::Num {
                                int_part: 1,
                                bits: 1.0f64.to_bits(),
                            },
                        ),
                    ]),
                ],
            ),
        ],
        output: vec![],
        output_name: vec![],
        name: "K".to_string(),
        display_name: "K".to_string(),
        description: String::new(),
        category: String::new(),
        output_node: false,
    };
    let parsed = parse_batch(&vec![("K".to_string(), raw)]).unwrap();
    let avail = available_from_batch(&parsed);
    assert_eq!(avail[0].1.inputs.len(), 2);
    assert_eq!(avail[0].1.fields.len(), 1);

    let mut model = Model::new();
    {
        let tabs = model.tabs_mut();
        let p = tabs.project_mut(0);
        p.set_available_nodes(avail);
    }
    model.apply(Event::AddNode(NodeType("K".to_string())));
    let tabs = model.tabs();
    let p = tabs.selected_project().unwrap();
    let inst = p.graph().get_node(0).unwrap();
    assert_eq!(inst.state.len(), 1);
    assert_eq!(inst.state[0].0, "steps");
    match &inst.state[0].1 {
        NodeField::IntInput(i) => assert_eq!(i.state, 20),
        other => panic!("expected an integer field, got {:?}", other),
    }
}

#[test]
fn tab_lifecycle() {
    let mut t = Tabs::new();
    assert_eq!(t.selected_tab(), Some(0));
    t.new_tab();
    assert_eq!(t.len(), 2);
    assert_eq!(t.selected_tab(), Some(1));
    t.select_tab(0);
    assert_eq!(t.selected_tab(), Some(0));
    t.select_tab(9);
    assert_eq!(t.selected_tab(), Some(0));
    t.close_tab(0);
    assert_eq!(t.len(), 1);
    assert_eq!(t.selected_tab(), Some(0));
    t.close_tab(0);
    assert_eq!(t.len(), 0);
    assert_eq!(t.selected_tab(), None);
    assert!(t.selected_project().is_none());
}

#[test]
fn tab_titles_show_file_path_or_placeholder() {
    let mut t = Tabs::new();
    assert_eq!(t.tab_titles(), vec!["Untitled".to_string()]);
    t.project_mut(0).set_file_path("castle.kira".to_string());
    assert_eq!(t.tab_titles(), vec!["castle.kira".to_string()]);
}

#[test]
fn model_events_drive_the_selected_graph() {
    let mut m = Model::new();
    {
        let tabs = m.tabs_mut();
        tabs.project_mut(0).set_available_nodes(catalog());
    }
    m.apply(Event::AddNode(NodeType("A".to_string())));
    m.apply(Event::AddNode(NodeType("B".to_string())));
    m.apply(Event::SetNodePosition(1, 40, 50));
    m.apply(Event::SetZoom(Real::new(2.0f64.to_bits())));
    m.apply(Event::SetOffset(3, 4));
    m.apply(Event::SetNodeOutput {
        node: 0,
        output: "img.png".to_string(),
    });
    let p_tabs = m.tabs();
    let p = p_tabs.selected_project().unwrap();
    assert_eq!(p.graph().get_nodes().len(), 2);
    assert_eq!(p.graph().get_node(1).unwrap().pos, (40, 50));
    assert_eq!(p.graph().zoom(), Real::new(2.0f64.to_bits()));
    assert_eq!(p.graph().offset(), (3, 4));
    assert_eq!(
        p.graph().get_node(0).unwrap().image,
        Some("img.png".to_string())
    );
    // an unknown kind adds nothing
    let mut m2 = Model::new();
    m2.apply(Event::AddNode(NodeType("missing".to_string())));
    let m2_tabs = m2.tabs();
    assert_eq!(
        m2_tabs.selected_project().unwrap().graph().get_nodes().len(),
        0
    );
}

#[test]
fn search_returns_catalog_entries() {
    let mut p = Project::new();
    p.set_available_nodes(placeholder_nodes());
    let results = p.search_available_nodes(&"Node".to_string());
    // every placeholder kind mentions the query word, so all three match
    assert_eq!(results.len(), 3);
    for (ty, node) in &results {
        let entry = p.get_available_node(ty).unwrap();
        assert_eq!(node, &entry);
    }
    assert_eq!(
        p.get_available_node(&NodeType("A".to_string())).unwrap().name,
        "A"
    );
    assert!(p.get_available_node(&NodeType("zzz".to_string())).is_none());
}

#[test]
fn search_string_joins_name_description_category() {
    let n = &placeholder_nodes()[0].1;
    assert_eq!(n.search_string(), "A Node of type A Dummy");
}

#[test]
fn executed_messages_route_to_node_outputs() {
    let msg = Message::Executed {
        node: "3".to_string(),
        output: NodeOutput {
            images: vec![ImageOutput {
                filename: "img_0001.png".to_string(),
                subfolder: String::new(),
                ty: "temp".to_string(),
            }],
        },
        prompt_id: "p".to_string(),
    };
    let (node, file) = executed_output(&msg).unwrap();
    assert_eq!(node, "3");
    assert_eq!(file, "img_0001.png");
    let quiet = Message::Executing {
        node: Some("3".to_string()),
        prompt_id: None,
    };
    assert!(executed_output(&quiet).is_none());
    let empty = Message::Executed {
        node: "3".to_string(),
        output: NodeOutput { images: vec![] },
        prompt_id: "p".to_string(),
    };
    assert!(executed_output(&empty).is_none());
}

use kira::codec::decode_document;
use kira::codec::encode_document;
use kira::codec::CodecError;
use kira::field::IntInput;
use kira::field::NodeField;
use kira::field::StringInput;
use kira::field::WidgetValue;
use kira::graph::Graph;
use kira::graph::Link;
use kira::graph::LinkType;
use kira::graph::NodeType;
use kira::project::Node;
use kira::prompt::PromptInputValue;
use kira::prompt::WorkflowPrompt;
use kira::workflow::LinkItem;
use kira::workflow::Workflow;
use kira::workflow::WorkflowNode;
use kira::workflow::WorkflowNodeInput;

fn slot(name: &str, ty: &str) -> (String, LinkType) {
    (name.to_string(), LinkType(ty.to_string()))
}

/// A producing kind with a text and an image output, and one text output
/// slot feeding consumers.
fn kind_a() -> Node {
    Node {
        inputs: vec![],
        outputs: vec![slot("Text", "TXT"), slot("Image", "IMG")],
        fields: vec![(
            "steps".to_string(),
            NodeField::IntInput(IntInput {
                default: 20,
                min: 1,
                max: 100,
                step: 1,
                state: 20,
            }),
        )],
        name: "A".to_string(),
        description: "producer".to_string(),
        category: "test".to_string(),
    }
}

/// A consuming kind with one text input.
fn kind_b() -> Node {
    Node {
        inputs: vec![slot("Text", "TXT")],
        outputs: vec![],
        fields: vec![(
            "prompt".to_string(),
            NodeField::StringInput(StringInput {
                multiline: true,
                default: None,
                state: String::new(),
            }),
        )],
        name: "B".to_string(),
        description: "consumer".to_string(),
        category: "test".to_string(),
    }
}

fn catalog() -> Vec<(NodeType, Node)> {
    vec![
        (NodeType("A".to_string()), kind_a()),
        (NodeType("B".to_string()), kind_b()),
    ]
}

fn linked_graph() -> Graph {
    let avail = catalog();
    let mut g = Graph::new();
    g.add_node(NodeType("A".to_string()), avail[0].1.default_state());
    g.add_node(NodeType("B".to_string()), avail[1].1.default_state());
    g.add_link(Link {
        src_node: 0,
        src_slot: 0,
        dst_node: 1,
        dst_slot: 0,
        ty: LinkType("TXT".to_string()),
    });
    g
}

#[test]
fn test_de_link_item() {
    let item = LinkItem::from_tuple((1, 2, 3, 4, 5, "ABC".to_string()));
    assert_eq!(item.link(), 1);
    assert_eq!(item.out_node_id(), 2);
    assert_eq!(item.out_node_link_idx(), 3);
    assert_eq!(item.in_node_id(), 4);
    assert_eq!(item.in_node_link_idx(), 5);
    assert_eq!(item.ty(), "ABC");
    let t = item.to_tuple();
    assert_eq!(t, (1, 2, 3, 4, 5, "ABC".to_string()));
}

#[test]
fn workflow_numbering_reserves_one_link_id_per_input() {
    let mut w = Workflow::new();
    let node = WorkflowNode {
        id: 0,
        ty: "A".to_string(),
        pos: (0, 0),
        order: 1,
        mode: 0,
        inputs: vec![
            WorkflowNodeInput {
                name: "x".to_string(),
                ty: "TXT".to_string(),
                link: 0,
            },
            WorkflowNodeInput {
                name: "y".to_string(),
                ty: "IMG".to_string(),
                link: 0,
            },
        ],
        outputs: vec![],
        properties: vec![],
        widgets_values: vec![],
    };
    let id = w.add_node(node);
    assert_eq!(id, 1);
    assert_eq!(w.last_node_id, 1);
    assert_eq!(w.last_link_id, 2);
    let stored = w.get_node(1).unwrap();
    assert_eq!(stored.inputs[0].link, 0);
    assert_eq!(stored.inputs[1].link, 1);
}

#[test]
fn document_round_trip_restores_the_graph() {
    let g = linked_graph();
    let w = encode_document(catalog(), &g);
    assert_eq!(w.last_node_id, 2);
    assert_eq!(w.nodes.len(), 2);
    assert_eq!(w.links.len(), 1);
    let restored = decode_document(&catalog(), &w).unwrap();
    assert_eq!(restored, g);
}

#[test]
fn round_trip_keeps_edited_field_state() {
    let mut g = linked_graph();
    g.set_field_int(0, &"steps".to_string(), 55);
    g.set_field_text(1, &"prompt".to_string(), "a castle".to_string());
    let w = encode_document(catalog(), &g);
    let restored = decode_document(&catalog(), &w).unwrap();
    assert_eq!(restored, g);
}

#[test]
fn encoded_links_carry_ids_and_slot_type() {
    let g = linked_graph();
    let w = encode_document(catalog(), &g);
    let item = &w.links[0];
    assert_eq!(item.out_node_id(), 1);
    assert_eq!(item.out_node_link_idx(), 0);
    assert_eq!(item.in_node_id(), 2);
    assert_eq!(item.in_node_link_idx(), 0);
    assert_eq!(item.ty(), "TXT");
}

#[test]
fn patched_kind_gets_synthetic_widget_value() {
    let avail = vec![(
        NodeType("KSampler".to_string()),
        Node {
            inputs: vec![],
            outputs: vec![],
            fields: vec![
                (
                    "seed".to_string(),
                    NodeField::IntInput(IntInput {
                        default: 0,
                        min: 0,
                        max: 100,
                        step: 1,
                        state: 0,
                    }),
                ),
                (
                    "steps".to_string(),
                    NodeField::IntInput(IntInput {
                        default: 20,
                        min: 1,
                        max: 100,
                        step: 1,
                        state: 20,
                    }),
                ),
            ],
            name: "KSampler".to_string(),
            description: String::new(),
            category: String::new(),
        },
    )];
    let mut g = Graph::new();
    g.add_node(NodeType("KSampler".to_string()), avail[0].1.default_state());
    let w = encode_document(avail.clone(), &g);
    assert_eq!(
        w.nodes[0].widgets_values,
        vec![
            WidgetValue::IntVal(0),
            WidgetValue::TextVal("fixed".to_string()),
            WidgetValue::IntVal(20),
        ]
    );
    // and reading the document back undoes the patch
    let restored = decode_document(&avail, &w).unwrap();
    assert_eq!(restored, g);
}

#[test]
fn decoding_an_unknown_kind_rejects_the_document() {
    let g = linked_graph();
    let w = encode_document(catalog(), &g);
    let empty: Vec<(NodeType, Node)> = vec![];
    match decode_document(&empty, &w) {
        Err(CodecError::UnknownKind(ty)) => assert_eq!(ty, "A"),
        other => panic!("expected an unknown-kind error, got {:?}", other),
    }
}

#[test]
fn decoding_mismatched_widgets_rejects_the_document() {
    let g = linked_graph();
    let mut w = encode_document(catalog(), &g);
    w.nodes[0].widgets_values.push(WidgetValue::BoolVal(true));
    match decode_document(&catalog(), &w) {
        Err(CodecError::WidgetMismatch(ty)) => assert_eq!(ty, "A"),
        other => panic!("expected a widget-mismatch error, got {:?}", other),
    }
}

#[test]
fn decoding_a_dangling_link_rejects_the_document() {
    let g = linked_graph();
    let mut w = encode_document(catalog(), &g);
    w.links[0].out_node_id = 99;
    match decode_document(&catalog(), &w) {
        Err(CodecError::DanglingLink(_)) => (),
        other => panic!("expected a dangling-link error, got {:?}", other),
    }
}

#[test]
fn prompt_contains_exactly_the_linked_nodes() {
    let avail = catalog();
    let mut g = linked_graph();
    // a third, isolated node never reaches the request
    g.add_node(NodeType("A".to_string()), avail[0].1.default_state());
    let p = WorkflowPrompt::from_graph(&avail, &g);
    assert_eq!(p.prompt.len(), 2);
    let b_entry = p
        .prompt
        .iter()
        .find(|(id, _)| *id == 1)
        .map(|(_, n)| n)
        .unwrap();
    assert_eq!(b_entry.class_type, "B");
    let bound = b_entry
        .inputs
        .iter()
        .find(|(name, _)| name == "Text")
        .map(|(_, v)| v)
        .unwrap();
    assert_eq!(
        bound,
        &PromptInputValue::Link {
            node_id: 0,
            input_idx: 0
        }
    );
    let a_entry = p
        .prompt
        .iter()
        .find(|(id, _)| *id == 0)
        .map(|(_, n)| n)
        .unwrap();
    assert_eq!(a_entry.class_type, "A");
    assert_eq!(
        a_entry.inputs,
        vec![("steps".to_string(), PromptInputValue::Integer(20))]
    );
}

#[test]
fn compiling_twice_yields_identical_prompts() {
    let avail = catalog();
    let g = linked_graph();
    let p1 = WorkflowPrompt::from_graph(&avail, &g);
    let p2 = WorkflowPrompt::from_graph(&avail, &g);
    assert_eq!(p1, p2);
}

#[test]
fn prompt_carries_the_default_client_id() {
    let p = WorkflowPrompt::new();
    assert_eq!(p.client_id, "f9e9494bb05849738d26b3b914e3eec2");
    assert!(p.prompt.is_empty());
    assert!(p.extra_data.is_none());
}

use kira::field::BoolInput;
use kira::field::IntInput;
use kira::field::NodeField;
use kira::field::Real;
use kira::field::StringInput;
use kira::field::WidgetValue;
use kira::graph::Graph;
use kira::graph::Link;
use kira::graph::LinkType;
use kira::graph::NodeType;
use kira::schema::parse_batch;
use kira::schema::parse_node;
use kira::schema::RawNode;
use kira::schema::RawValue;
use kira::schema::SchemaReason;

fn num(v: f64) -> RawValue {
    RawValue::Num {
        int_part: v as i64,
        bits: v.to_bits(),
    }
}

fn raw_node(required: Vec<(String, Vec<RawValue>)>, output: Vec<&str>, names: Vec<&str>) -> RawNode {
    RawNode {
        required,
        output: output.into_iter().map(String::from).collect(),
        output_name: names.into_iter().map(String::from).collect(),
        name: "kind".into(),
        display_name: "Kind".into(),
        description: "a kind".into(),
        category: "cat".into(),
        output_node: false,
    }
}

#[test]
fn int_descriptor_parses_with_bounds_and_default_state() {
    let params = RawValue::Obj(vec![
        ("default".to_string(), num(20.0)),
        ("min".to_string(), num(1.0)),
        ("max".to_string(), num(10000.0)),
    ]);
    let raw = raw_node(
        vec![("steps".to_string(), vec![RawValue::Str("INT".into()), params])],
        vec![],
        vec![],
    );
    let node = parse_node(&"K".to_string(), &raw).unwrap();
    assert_eq!(node.input.len(), 1);
    assert_eq!(node.input[0].0, "steps");
    match &node.input[0].1 {
        NodeField::IntInput(i) => {
            assert_eq!(i.default, 20);
            assert_eq!(i.min, 1);
            assert_eq!(i.max, 10000);
            assert_eq!(i.step, 1);
            // the freshly instantiated state equals the declared default
            assert_eq!(i.state, 20);
        }
        other => panic!("expected an integer field, got {:?}", other),
    }
    let inst = node.input[0].1.with_default_state();
    match inst {
        NodeField::IntInput(i) => assert_eq!(i.state, 20),
        other => panic!("expected an integer field, got {:?}", other),
    }
}

#[test]
fn int_descriptor_missing_min_is_fatal() {
    let params = RawValue::Obj(vec![("default".to_string(), num(3.0))]);
    let raw = raw_node(
        vec![("steps".to_string(), vec![RawValue::Str("INT".into()), params])],
        vec![],
        vec![],
    );
    let err = parse_node(&"K".to_string(), &raw).unwrap_err();
    assert_eq!(err.reason, SchemaReason::BadParams);
    assert_eq!(err.kind_name, "K");
    assert_eq!(err.field_name, "steps");
}

#[test]
fn unknown_tag_and_long_shapes_fail_ingestion() {
    let raw = raw_node(
        vec![(
            "x".to_string(),
            vec![RawValue::Str("COMPLEX".into()), RawValue::Null],
        )],
        vec![],
        vec![],
    );
    let err = parse_node(&"K".to_string(), &raw).unwrap_err();
    assert_eq!(err.reason, SchemaReason::UnexpectedShape);

    let raw = raw_node(
        vec![(
            "x".to_string(),
            vec![RawValue::Null, RawValue::Null, RawValue::Null],
        )],
        vec![],
        vec![],
    );
    let err = parse_node(&"K".to_string(), &raw).unwrap_err();
    assert_eq!(err.reason, SchemaReason::UnexpectedShape);
}

#[test]
fn output_length_mismatch_is_an_ingestion_error() {
    let raw = raw_node(vec![], vec!["IMAGE"], vec![]);
    let err = parse_node(&"K".to_string(), &raw).unwrap_err();
    assert_eq!(err.reason, SchemaReason::OutputMismatch);
}

#[test]
fn single_element_shapes_classify_as_select_edge_or_unknown() {
    let raw = raw_node(
        vec![
            (
                "choice".to_string(),
                vec![RawValue::List(vec![
                    RawValue::Str("euler".into()),
                    RawValue::Str("ddim".into()),
                ])],
            ),
            ("image".to_string(), vec![RawValue::Str("IMAGE".into())]),
            ("odd".to_string(), vec![RawValue::Null]),
        ],
        vec![],
        vec![],
    );
    let node = parse_node(&"K".to_string(), &raw).unwrap();
    match &node.input[0].1 {
        NodeField::Select { options, state } => {
            assert_eq!(options, &vec!["euler".to_string(), "ddim".to_string()]);
            assert_eq!(*state, None);
        }
        other => panic!("expected a drop-down, got {:?}", other),
    }
    match &node.input[1].1 {
        NodeField::Connection(ty) => assert_eq!(ty, "IMAGE"),
        other => panic!("expected a connection, got {:?}", other),
    }
    assert!(matches!(node.input[2].1, NodeField::Unknown));
}

#[test]
fn batch_ingestion_aborts_on_first_bad_kind() {
    let good = raw_node(vec![], vec![], vec![]);
    let bad = raw_node(vec![("x".to_string(), vec![])], vec![], vec![]);
    let batch = vec![("good".to_string(), good), ("bad".to_string(), bad)];
    let err = parse_batch(&batch).unwrap_err();
    assert_eq!(err.kind_name, "bad");
    assert_eq!(err.field_name, "x");
    assert_eq!(err.reason, SchemaReason::UnexpectedShape);
}

#[test]
fn select_out_of_range_is_no_selection() {
    let f = NodeField::Select {
        options: vec!["a".to_string(), "b".to_string()],
        state: Some(7),
    };
    assert_eq!(f.text(), None);
    assert_eq!(f.option(), None);
    assert_eq!(f.state(), Some(WidgetValue::OptIndex(None)));
    let in_range = NodeField::Select {
        options: vec!["a".to_string(), "b".to_string()],
        state: Some(1),
    };
    assert_eq!(in_range.text(), Some("b".to_string()));
    assert_eq!(in_range.option(), Some(1));
}

#[test]
fn set_text_selects_first_matching_option() {
    let mut f = NodeField::Select {
        options: vec!["x".to_string(), "y".to_string(), "y".to_string()],
        state: None,
    };
    f.set_text("y".to_string());
    assert_eq!(f.option(), Some(1));
    f.set_text("nope".to_string());
    assert_eq!(f.option(), None);

    let mut s = NodeField::StringInput(StringInput {
        multiline: false,
        default: None,
        state: String::new(),
    });
    s.set_text("hello".to_string());
    assert_eq!(s.text(), Some("hello".to_string()));
}

#[test]
fn numeric_setters_touch_only_their_kind() {
    let mut f = NodeField::IntInput(IntInput {
        default: 1,
        min: 0,
        max: 10,
        step: 1,
        state: 1,
    });
    f.set_int(7);
    assert_eq!(f.int_value(), Some(7));
    f.set_float(Real::new(2.5f64.to_bits()));
    assert_eq!(f.int_value(), Some(7));

    let mut b = NodeField::BoolInput(BoolInput { default: true });
    b.set_int(3);
    assert_eq!(b.state(), Some(WidgetValue::BoolVal(true)));
}

#[test]
fn field_type_tags() {
    let i = NodeField::IntInput(IntInput {
        default: 0,
        min: 0,
        max: 0,
        step: 1,
        state: 0,
    });
    assert_eq!(i.ty(), "Kira__Reserved_Int");
    assert!(!i.is_connection());
    let c = NodeField::Connection("IMAGE".to_string());
    assert_eq!(c.ty(), "IMAGE");
    assert!(c.is_connection());
}

#[test]
fn removing_link_at_zero_leaves_second_link_first() {
    let mut g = Graph::new();
    g.add_node(NodeType("A".into()), vec![]);
    g.add_node(NodeType("B".into()), vec![]);
    let l0 = Link {
        src_node: 0,
        src_slot: 0,
        dst_node: 1,
        dst_slot: 0,
        ty: LinkType("TXT".into()),
    };
    let l1 = Link {
        src_node: 0,
        src_slot: 1,
        dst_node: 1,
        dst_slot: 1,
        ty: LinkType("IMG".into()),
    };
    g.add_link(l0);
    g.add_link(l1);
    assert_eq!(g.get_links().len(), 2);
    g.remove_link(0);
    assert_eq!(g.get_links().len(), 1);
    let rest = &g.get_links()[0];
    assert_eq!(rest.src_slot, 1);
    assert_eq!(rest.dst_slot, 1);
    assert_eq!(rest.ty.0, "IMG");
    // removing with a stale index is a harmless no-op
    g.remove_link(5);
    assert_eq!(g.get_links().len(), 1);
}

#[test]
fn add_link_evicts_existing_link_at_same_destination() {
    let mut g = Graph::new();
    g.add_node(NodeType("A".into()), vec![]);
    g.add_node(NodeType("B".into()), vec![]);
    g.add_link(Link {
        src_node: 0,
        src_slot: 0,
        dst_node: 1,
        dst_slot: 0,
        ty: LinkType("TXT".into()),
    });
    g.add_link(Link {
        src_node: 0,
        src_slot: 1,
        dst_node: 1,
        dst_slot: 0,
        ty: LinkType("TXT".into()),
    });
    // the destination slot accepts at most one incoming edge
    assert_eq!(g.get_links().len(), 1);
    assert_eq!(g.get_links()[0].src_slot, 1);
}

#[test]
fn node_position_and_image_updates() {
    let mut g = Graph::new();
    g.add_node(NodeType("A".into()), vec![]);
    assert_eq!(g.get_node(0).unwrap().pos, (20, 20));
    g.set_node_position(0, -5, 12);
    assert_eq!(g.get_node(0).unwrap().pos, (-5, 12));
    g.set_node_image(0, "out.png".to_string());
    assert_eq!(g.get_node(0).unwrap().image, Some("out.png".to_string()));
    // stale indices are no-ops
    g.set_node_position(3, 0, 0);
    g.set_node_image(3, "x".to_string());
    assert_eq!(g.get_node(0).unwrap().pos, (-5, 12));
    assert!(g.get_node(3).is_none());
}

#[test]
fn new_nodes_land_in_the_visible_viewport() {
    let mut g = Graph::new();
    g.set_offset((100, -30));
    g.add_node(NodeType("A".into()), vec![]);
    assert_eq!(g.get_node(0).unwrap().pos, (-80, 50));
}

#[test]
fn graph_field_edits_by_name() {
    let mut g = Graph::new();
    let state = vec![(
        "steps".to_string(),
        NodeField::IntInput(IntInput {
            default: 20,
            min: 1,
            max: 100,
            step: 1,
            state: 20,
        }),
    )];
    g.add_node(NodeType("K".into()), state);
    g.set_field_int(0, &"steps".to_string(), 42);
    let st = g.get_state(0).unwrap();
    match &st[0].1 {
        NodeField::IntInput(i) => assert_eq!(i.state, 42),
        other => panic!("expected an integer field, got {:?}", other),
    }
    // an unknown field name and a stale node index are no-ops
    g.set_field_int(0, &"missing".to_string(), 7);
    g.set_field_int(9, &"steps".to_string(), 7);
    match &g.get_state(0).unwrap()[0].1 {
        NodeField::IntInput(i) => assert_eq!(i.state, 42),
        other => panic!("expected an integer field, got {:?}", other),
    }
}

#[test]
fn float_descriptor_carries_bit_patterns() {
    let params = RawValue::Obj(vec![
        ("default".to_string(), num(7.5)),
        ("min".to_string(), num(0.0)),
        ("step".to_string(), num(0.5)),
    ]);
    let raw = raw_node(
        vec![("cfg".to_string(), vec![RawValue::Str("FLOAT".into()), params])],
        vec![],
        vec![],
    );
    let node = parse_node(&"K".to_string(), &raw).unwrap();
    match &node.input[0].1 {
        NodeField::FloatInput(f) => {
            assert_eq!(f.default, Real::new(7.5f64.to_bits()));
            assert_eq!(f.min, Real::new(0.0f64.to_bits()));
            assert_eq!(f.step, Real::new(0.5f64.to_bits()));
            // max falls back to the largest finite double
            assert_eq!(f.max, Real::new(f64::MAX.to_bits()));
            assert_eq!(f.state, f.default);
        }
        other => panic!("expected a floating-point field, got {:?}", other),
    }
}

#[test]
fn string_and_bool_descriptors() {
    let text_params = RawValue::Obj(vec![
        ("multiline".to_string(), RawValue::Bool(true)),
        ("default".to_string(), RawValue::Str("hi".into())),
    ]);
    let bool_params = RawValue::Obj(vec![("default".to_string(), RawValue::Bool(true))]);
    let raw = raw_node(
        vec![
            (
                "prompt".to_string(),
                vec![RawValue::Str("STRING".into()), text_params],
            ),
            (
                "tiled".to_string(),
                vec![RawValue::Str("BOOLEAN".into()), bool_params],
            ),
        ],
        vec![],
        vec![],
    );
    let node = parse_node(&"K".to_string(), &raw).unwrap();
    match &node.input[0].1 {
        NodeField::StringInput(s) => {
            assert!(s.multiline);
            assert_eq!(s.default, Some("hi".to_string()));
            assert_eq!(s.state, "hi");
        }
        other => panic!("expected a text field, got {:?}", other),
    }
    match &node.input[1].1 {
        NodeField::BoolInput(b) => assert!(b.default),
        other => panic!("expected a boolean field, got {:?}", other),
    }
}

#[test]
fn step_fallback_is_one_hundredth() {
    // the library's fallback constants are the expected bit patterns
    assert_eq!(kira::field::STEP_FALLBACK_BITS, 0.01f64.to_bits());
    assert_eq!(kira::field::REAL_MAX_BITS, f64::MAX.to_bits());
    assert_eq!(kira::graph::REAL_ONE_BITS, 1.0f64.to_bits());
    assert_eq!(kira::workflow::VERSION_BITS, 0.4f64.to_bits());
}

//! The schema registry: turns the remote engine's loosely shaped capability
//! descriptors into strongly typed per-kind node schemas.
//!
//! Each declared input is classified from its positional shape:
//! a single-element list holding an array of strings is a drop-down, a
//! single-element list holding a bare string is a connection, a two-element
//! list `[tag, params]` dispatches on the tag into a numeric, text or boolean
//! field parser, and any other shape fails ingestion with an error naming the
//! offending node kind and input.

use vstd::prelude::*;
use crate::field::FieldV;
use crate::field::NodeField;
use crate::field::IntInput;
use crate::field::FloatInput;
use crate::field::StringInput;
use crate::field::BoolInput;
use crate::field::Real;
use crate::field::REAL_MAX_BITS;
use crate::field::STEP_FALLBACK_BITS;
use crate::field::clone_strings;

verus! {

/// A value of the raw descriptor, already freed of its carrier syntax: the
/// boundary layer turns the transport's JSON into this shape and hands it
/// over.
///
/// A number is carried twice: as its integer part and as the bit pattern of
/// its double-precision value, so that integer fields and floating-point
/// fields can each read the projection they need without the core doing
/// floating-point arithmetic.
#[derive(Debug)]
pub enum RawValue {
    Null,
    Bool(bool),
    Num { int_part: i64, bits: u64 },
    Str(String),
    List(Vec<RawValue>),
    Obj(Vec<(String, RawValue)>),
}

/// A raw per-kind descriptor as delivered by the remote engine: the required
/// inputs in declared order, the declared outputs, and the presentation
/// strings.
#[derive(Debug)]
pub struct RawNode {
    pub required: Vec<(String, Vec<RawValue>)>,
    pub output: Vec<String>,
    pub output_name: Vec<String>,
    pub name: String,
    pub display_name: String,
    pub description: String,
    pub category: String,
    pub output_node: bool,
}

/// Why ingestion of a descriptor failed.
#[derive(Clone, Copy, PartialEq, Eq, Structural, Debug)]
pub enum SchemaReason {
    /// An input descriptor had a shape the classifier does not know.
    UnexpectedShape,
    /// A two-element input descriptor carried parameters that do not fit its
    /// tag: a missing or mistyped `default`, `min` or other key.
    BadParams,
    /// The declared output types and output names differ in length.
    OutputMismatch,
}

/// A structured ingestion error: the reason, and the path to the offending
/// part of the descriptor (node kind, and input name where one applies).
#[derive(PartialEq, Eq, Debug)]
pub struct SchemaError {
    pub reason: SchemaReason,
    pub kind_name: String,
    pub field_name: String,
}

/// A parsed node kind: its inputs in declared order (connections and fields
/// alike), its outputs, and its presentation strings.
#[derive(Debug)]
pub struct Node {
    pub input: Vec<(String, NodeField)>,
    pub output: Vec<String>,
    pub output_name: Vec<String>,
    pub name: String,
    pub display_name: String,
    pub description: String,
    pub category: String,
    pub output_node: bool,
}

/// Mathematical model of a parsed node kind.
#[verifier::ext_equal]
pub struct NodeV {
    pub input: Seq<(Seq<char>, FieldV)>,
    pub output: Seq<Seq<char>>,
    pub output_name: Seq<Seq<char>>,
    pub name: Seq<char>,
    pub display_name: Seq<char>,
    pub description: Seq<char>,
    pub category: Seq<char>,
    pub output_node: bool,
}

/// The model of an ordered list of named fields.
pub open spec fn state_view(s: Seq<(String, NodeField)>) -> Seq<(Seq<char>, FieldV)> {
    s.map_values(|p: (String, NodeField)| (p.0@, p.1@))
}

/// The model of an ordered list of strings.
pub open spec fn strings_view(s: Seq<String>) -> Seq<Seq<char>> {
    s.map_values(|o: String| o@)
}

impl View for Node {
    type V = NodeV;

    open spec fn view(&self) -> NodeV {
        NodeV {
            input: state_view(self.input@),
            output: strings_view(self.output@),
            output_name: strings_view(self.output_name@),
            name: self.name@,
            display_name: self.display_name@,
            description: self.description@,
            category: self.category@,
            output_node: self.output_node,
        }
    }
}

/// The option labels of a drop-down descriptor: the string elements of the
/// array, in order; elements of any other shape are passed over.
pub open spec fn select_options_spec(items: Seq<RawValue>) -> Seq<Seq<char>>
    decreases items.len(),
{
    if items.len() == 0 {
        Seq::empty()
    } else {
        select_options_spec(items.drop_last()) + (match items.last() {
            RawValue::Str(s) => seq![s@],
            _ => Seq::<Seq<char>>::empty(),
        })
    }
}

/// The value under the first key equal to `name` in an object's fields.
pub open spec fn obj_get_spec(fields: Seq<(String, RawValue)>, name: Seq<char>) -> Option<
    RawValue,
>
    decreases fields.len(),
{
    if fields.len() == 0 {
        None
    } else if fields[0].0@ == name {
        Some(fields[0].1)
    } else {
        obj_get_spec(fields.drop_first(), name)
    }
}

/// The integer projection of a numeric parameter value.
pub open spec fn num_int_spec(v: Option<RawValue>) -> Option<i64> {
    match v {
        Some(RawValue::Num { int_part, .. }) => Some(int_part),
        _ => None,
    }
}

/// The double-precision projection of a numeric parameter value.
pub open spec fn num_bits_spec(v: Option<RawValue>) -> Option<Real> {
    match v {
        Some(RawValue::Num { bits, .. }) => Some(Real { bits }),
        _ => None,
    }
}

/// An integer field parsed from its parameter object: `default` and `min`
/// are required numbers, `max` falls back to the largest integer and `step`
/// to one, and the state starts at the default.
pub open spec fn parse_int_spec(params: RawValue) -> Result<FieldV, SchemaReason> {
    match params {
        RawValue::Obj(fields) => {
            let d = num_int_spec(obj_get_spec(fields@, "default"@));
            let mn = num_int_spec(obj_get_spec(fields@, "min"@));
            let mx = num_int_spec(obj_get_spec(fields@, "max"@));
            let st = num_int_spec(obj_get_spec(fields@, "step"@));
            if d is Some && mn is Some {
                Ok(
                    FieldV::Int {
                        default: d->0,
                        min: mn->0,
                        max: match mx {
                            Some(m) => m,
                            None => i64::MAX,
                        },
                        step: match st {
                            Some(s) => s,
                            None => 1i64,
                        },
                        state: d->0,
                    },
                )
            } else {
                Err(SchemaReason::BadParams)
            }
        },
        _ => Err(SchemaReason::BadParams),
    }
}

/// A floating-point field parsed from its parameter object: `default` and
/// `min` are required numbers, `max` falls back to the largest finite double
/// and `step` to one hundredth, and the state starts at the default.
pub open spec fn parse_float_spec(params: RawValue) -> Result<FieldV, SchemaReason> {
    match params {
        RawValue::Obj(fields) => {
            let d = num_bits_spec(obj_get_spec(fields@, "default"@));
            let mn = num_bits_spec(obj_get_spec(fields@, "min"@));
            let mx = num_bits_spec(obj_get_spec(fields@, "max"@));
            let st = num_bits_spec(obj_get_spec(fields@, "step"@));
            if d is Some && mn is Some {
                Ok(
                    FieldV::Float {
                        default: d->0,
                        min: mn->0,
                        max: match mx {
                            Some(m) => m,
                            None => Real { bits: REAL_MAX_BITS },
                        },
                        step: match st {
                            Some(s) => s,
                            None => Real { bits: STEP_FALLBACK_BITS },
                        },
                        state: d->0,
                    },
                )
            } else {
                Err(SchemaReason::BadParams)
            }
        },
        _ => Err(SchemaReason::BadParams),
    }
}

/// A text field parsed from its parameter object: `multiline` is an optional
/// boolean, `default` an optional string, and the state starts at the default
/// or empty.
pub open spec fn parse_string_spec(params: RawValue) -> Result<FieldV, SchemaReason> {
    match params {
        RawValue::Obj(fields) => {
            let ml = match obj_get_spec(fields@, "multiline"@) {
                Some(RawValue::Bool(b)) => b,
                _ => false,
            };
            let d = match obj_get_spec(fields@, "default"@) {
                Some(RawValue::Str(s)) => Some(s@),
                _ => None,
            };
            Ok(
                FieldV::Str {
                    multiline: ml,
                    default: d,
                    state: match d {
                        Some(s) => s,
                        None => Seq::empty(),
                    },
                },
            )
        },
        _ => Err(SchemaReason::BadParams),
    }
}

/// A boolean field parsed from its parameter object: `default` is a required
/// boolean.
pub open spec fn parse_bool_spec(params: RawValue) -> Result<FieldV, SchemaReason> {
    match params {
        RawValue::Obj(fields) => match obj_get_spec(fields@, "default"@) {
            Some(RawValue::Bool(b)) => Ok(FieldV::Bool { default: b }),
            _ => Err(SchemaReason::BadParams),
        },
        _ => Err(SchemaReason::BadParams),
    }
}

/// Classification of one input descriptor by its positional shape.
///
/// A single element that is an array of strings is a drop-down; a single
/// element that is a string is a connection naming the accepted slot type; a
/// single element of any other shape is `Unknown`. A two-element list
/// dispatches on its first element's tag; an unknown tag and any other list
/// length are errors, as is a parameter object that does not fit its tag.
pub open spec fn classify_spec(desc: Seq<RawValue>) -> Result<FieldV, SchemaReason> {
    if desc.len() == 1 {
        match desc[0] {
            RawValue::List(items) => Ok(
                FieldV::Select { options: select_options_spec(items@), state: None },
            ),
            RawValue::Str(s) => Ok(FieldV::Connection { ty: s@ }),
            _ => Ok(FieldV::Unknown),
        }
    } else if desc.len() == 2 {
        match desc[0] {
            RawValue::Str(tag) => if tag@ == "INT"@ {
                parse_int_spec(desc[1])
            } else if tag@ == "FLOAT"@ {
                parse_float_spec(desc[1])
            } else if tag@ == "STRING"@ {
                parse_string_spec(desc[1])
            } else if tag@ == "BOOLEAN"@ {
                parse_bool_spec(desc[1])
            } else {
                Err(SchemaReason::UnexpectedShape)
            },
            _ => Ok(FieldV::Unknown),
        }
    } else {
        Err(SchemaReason::UnexpectedShape)
    }
}

/// The inputs of a node kind, classified in declared order; the first input
/// whose descriptor fails classification fails the kind, reporting that
/// input's name.
pub open spec fn parse_inputs_spec(required: Seq<(String, Vec<RawValue>)>) -> Result<
    Seq<(Seq<char>, FieldV)>,
    (SchemaReason, Seq<char>),
>
    decreases required.len(),
{
    if required.len() == 0 {
        Ok(Seq::empty())
    } else {
        match parse_inputs_spec(required.drop_last()) {
            Err(e) => Err(e),
            Ok(acc) => match classify_spec(required.last().1@) {
                Ok(fv) => Ok(acc + seq![(required.last().0@, fv)]),
                Err(reason) => Err((reason, required.last().0@)),
            },
        }
    }
}

/// A node kind parsed from its raw descriptor: all inputs classified, and
/// the declared output types and names equal in length.
pub open spec fn parse_node_spec(raw: RawNode) -> Result<NodeV, (SchemaReason, Seq<char>)> {
    if raw.output@.len() != raw.output_name@.len() {
        Err((SchemaReason::OutputMismatch, Seq::empty()))
    } else {
        match parse_inputs_spec(raw.required@) {
            Err(e) => Err(e),
            Ok(input) => Ok(
                NodeV {
                    input,
                    output: strings_view(raw.output@),
                    output_name: strings_view(raw.output_name@),
                    name: raw.name@,
                    display_name: raw.display_name@,
                    description: raw.description@,
                    category: raw.category@,
                    output_node: raw.output_node,
                },
            ),
        }
    }
}

/// The whole descriptor batch parsed in order; the first kind that fails
/// ingestion fails the batch, reporting the kind, the input and the reason.
pub open spec fn parse_batch_spec(raw: Seq<(String, RawNode)>) -> Result<
    Seq<(Seq<char>, NodeV)>,
    (SchemaReason, Seq<char>, Seq<char>),
>
    decreases raw.len(),
{
    if raw.len() == 0 {
        Ok(Seq::empty())
    } else {
        match parse_batch_spec(raw.drop_last()) {
            Err(e) => Err(e),
            Ok(acc) => match parse_node_spec(raw.last().1) {
                Ok(node) => Ok(acc + seq![(raw.last().0@, node)]),
                Err((reason, field)) => Err((reason, raw.last().0@, field)),
            },
        }
    }
}

/// Integer ingestion: a two-element integer descriptor yields an integer
/// field whose bounds come from its parameters — `max` falling back to the
/// largest integer and `step` to one — and whose state starts at the
/// declared default.
pub proof fn lemma_int_ingestion(params: RawValue, f: FieldV)
    requires
        parse_int_spec(params) == Ok::<FieldV, SchemaReason>(f),
    ensures
        params is Obj,
        f matches FieldV::Int { default, min, max, step, state } && (match params {
            RawValue::Obj(fields) => {
                &&& state == default
                &&& Some(default) == num_int_spec(obj_get_spec(fields@, "default"@))
                &&& Some(min) == num_int_spec(obj_get_spec(fields@, "min"@))
                &&& match num_int_spec(obj_get_spec(fields@, "max"@)) {
                    Some(m) => max == m,
                    None => max == i64::MAX,
                }
                &&& match num_int_spec(obj_get_spec(fields@, "step"@)) {
                    Some(st) => step == st,
                    None => step == 1i64,
                }
            },
            _ => false,
        }),
{
}

/// Looks up a key in an object's fields, returning a reference to the first
/// value stored under it.
fn obj_get<'a>(fields: &'a Vec<(String, RawValue)>, name: &str) -> (r: Option<&'a RawValue>)
    ensures
        match r {
            Some(v) => obj_get_spec(fields@, name@) == Some(*v),
            None => obj_get_spec(fields@, name@) is None,
        },
{
    let mut i: usize = 0;
    proof {
        assert(fields@.skip(0int) =~= fields@);
    }
    while i < fields.len()
        invariant
            i <= fields@.len(),
            obj_get_spec(fields@, name@) == obj_get_spec(fields@.skip(i as int), name@),
        decreases fields@.len() - i,
    {
        proof {
            assert(fields@.skip(i as int)[0] == fields@[i as int]);
            assert(fields@.skip(i as int).drop_first() =~= fields@.skip(i as int + 1));
        }
        if fields[i].0.as_str().eq(name) {
            return Some(&fields[i].1);
        }
        i = i + 1;
    }
    None
}

/// The integer projection of a numeric parameter, if the key holds a number.
fn get_num_int(fields: &Vec<(String, RawValue)>, name: &str) -> (r: Option<i64>)
    ensures
        r == num_int_spec(obj_get_spec(fields@, name@)),
{
    match obj_get(fields, name) {
        Some(RawValue::Num { int_part, .. }) => Some(*int_part),
        _ => None,
    }
}

/// The double-precision projection of a numeric parameter, if the key holds
/// a number.
fn get_num_bits(fields: &Vec<(String, RawValue)>, name: &str) -> (r: Option<Real>)
    ensures
        r == num_bits_spec(obj_get_spec(fields@, name@)),
{
    match obj_get(fields, name) {
        Some(RawValue::Num { bits, .. }) => Some(Real { bits: *bits }),
        _ => None,
    }
}

/// Parses an integer field's parameter object.
fn parse_int(params: &RawValue) -> (r: Result<NodeField, SchemaReason>)
    ensures
        match r {
            Ok(f) => parse_int_spec(*params) == Ok::<FieldV, SchemaReason>(f@),
            Err(e) => parse_int_spec(*params) == Err::<FieldV, SchemaReason>(e),
        },
{
    match params {
        RawValue::Obj(fields) => {
            let d = get_num_int(fields, "default");
            let mn = get_num_int(fields, "min");
            let mx = get_num_int(fields, "max");
            let st = get_num_int(fields, "step");
            if let (Some(default), Some(min)) = (d, mn) {
                let max = match mx {
                    Some(m) => m,
                    None => i64::MAX,
                };
                let step = match st {
                    Some(s) => s,
                    None => 1i64,
                };
                Ok(NodeField::IntInput(IntInput { default, min, max, step, state: default }))
            } else {
                Err(SchemaReason::BadParams)
            }
        },
        _ => Err(SchemaReason::BadParams),
    }
}

/// Parses a floating-point field's parameter object.
fn parse_float(params: &RawValue) -> (r: Result<NodeField, SchemaReason>)
    ensures
        match r {
            Ok(f) => parse_float_spec(*params) == Ok::<FieldV, SchemaReason>(f@),
            Err(e) => parse_float_spec(*params) == Err::<FieldV, SchemaReason>(e),
        },
{
    match params {
        RawValue::Obj(fields) => {
            let d = get_num_bits(fields, "default");
            let mn = get_num_bits(fields, "min");
            let mx = get_num_bits(fields, "max");
            let st = get_num_bits(fields, "step");
            if let (Some(default), Some(min)) = (d, mn) {
                let max = match mx {
                    Some(m) => m,
                    None => Real { bits: REAL_MAX_BITS },
                };
                let step = match st {
                    Some(s) => s,
                    None => Real { bits: STEP_FALLBACK_BITS },
                };
                Ok(NodeField::FloatInput(FloatInput { default, min, max, step, state: default }))
            } else {
                Err(SchemaReason::BadParams)
            }
        },
        _ => Err(SchemaReason::BadParams),
    }
}

/// Parses a text field's parameter object.
fn parse_string(params: &RawValue) -> (r: Result<NodeField, SchemaReason>)
    ensures
        match r {
            Ok(f) => parse_string_spec(*params) == Ok::<FieldV, SchemaReason>(f@),
            Err(e) => parse_string_spec(*params) == Err::<FieldV, SchemaReason>(e),
        },
{
    match params {
        RawValue::Obj(fields) => {
            let multiline = match obj_get(fields, "multiline") {
                Some(RawValue::Bool(b)) => *b,
                _ => false,
            };
            let default = match obj_get(fields, "default") {
                Some(RawValue::Str(s)) => Some(s.clone()),
                _ => None,
            };
            let state = match &default {
                Some(s) => s.clone(),
                None => String::new(),
            };
            Ok(NodeField::StringInput(StringInput { multiline, default, state }))
        },
        _ => Err(SchemaReason::BadParams),
    }
}

/// Parses a boolean field's parameter object.
fn parse_bool(params: &RawValue) -> (r: Result<NodeField, SchemaReason>)
    ensures
        match r {
            Ok(f) => parse_bool_spec(*params) == Ok::<FieldV, SchemaReason>(f@),
            Err(e) => parse_bool_spec(*params) == Err::<FieldV, SchemaReason>(e),
        },
{
    match params {
        RawValue::Obj(fields) => match obj_get(fields, "default") {
            Some(RawValue::Bool(b)) => Ok(NodeField::BoolInput(BoolInput { default: *b })),
            _ => Err(SchemaReason::BadParams),
        },
        _ => Err(SchemaReason::BadParams),
    }
}

/// The option labels of a drop-down descriptor: the string elements, in
/// order.
fn select_options(items: &Vec<RawValue>) -> (r: Vec<String>)
    ensures
        strings_view(r@) == select_options_spec(items@),
{
    let mut r: Vec<String> = Vec::new();
    let mut i: usize = 0;
    proof {
        assert(items@.take(0int) =~= Seq::<RawValue>::empty());
        assert(strings_view(r@) =~= select_options_spec(items@.take(0int)));
    }
    while i < items.len()
        invariant
            i <= items@.len(),
            strings_view(r@) == select_options_spec(items@.take(i as int)),
        decreases items@.len() - i,
    {
        proof {
            assert(items@.take(i as int + 1).drop_last() =~= items@.take(i as int));
            assert(items@.take(i as int + 1).last() == items@[i as int]);
        }
        match &items[i] {
            RawValue::Str(s) => {
                r.push(s.clone());
                proof {
                    assert(strings_view(r@) =~= select_options_spec(items@.take(i as int + 1)));
                }
            },
            _ => {
                proof {
                    assert(strings_view(r@) =~= select_options_spec(items@.take(i as int + 1)));
                }
            },
        }
        i = i + 1;
    }
    proof {
        assert(items@.take(items@.len() as int) =~= items@);
    }
    r
}

/// Classifies one input descriptor by its positional shape.
pub fn classify_input(desc: &Vec<RawValue>) -> (r: Result<NodeField, SchemaReason>)
    ensures
        match r {
            Ok(f) => classify_spec(desc@) == Ok::<FieldV, SchemaReason>(f@),
            Err(e) => classify_spec(desc@) == Err::<FieldV, SchemaReason>(e),
        },
{
    if desc.len() == 1 {
        match &desc[0] {
            RawValue::List(items) => Ok(
                NodeField::Select { options: select_options(items), state: None },
            ),
            RawValue::Str(s) => Ok(NodeField::Connection(s.clone())),
            _ => Ok(NodeField::Unknown),
        }
    } else if desc.len() == 2 {
        match &desc[0] {
            RawValue::Str(tag) => if tag.as_str().eq("INT") {
                parse_int(&desc[1])
            } else if tag.as_str().eq("FLOAT") {
                parse_float(&desc[1])
            } else if tag.as_str().eq("STRING") {
                parse_string(&desc[1])
            } else if tag.as_str().eq("BOOLEAN") {
                parse_bool(&desc[1])
            } else {
                Err(SchemaReason::UnexpectedShape)
            },
            _ => Ok(NodeField::Unknown),
        }
    } else {
        Err(SchemaReason::UnexpectedShape)
    }
}

/// Parses a node kind from its raw descriptor. Returns the parsed kind, or
/// the first ingestion error with the offending input's name filled in.
pub fn parse_node(kind: &String, raw: &RawNode) -> (r: Result<Node, SchemaError>)
    ensures
        match r {
            Ok(node) => parse_node_spec(*raw) == Ok::<NodeV, (SchemaReason, Seq<char>)>(node@),
            Err(e) => {
                &&& parse_node_spec(*raw) == Err::<NodeV, (SchemaReason, Seq<char>)>(
                    (e.reason, e.field_name@),
                )
                &&& e.kind_name@ == kind@
            },
        },
{
    if raw.output.len() != raw.output_name.len() {
        return Err(
            SchemaError {
                reason: SchemaReason::OutputMismatch,
                kind_name: kind.clone(),
                field_name: String::new(),
            },
        );
    }
    let mut input: Vec<(String, NodeField)> = Vec::new();
    let mut i: usize = 0;
    proof {
        assert(raw.output@.len() == raw.output_name@.len());
        assert(raw.required@.take(0int) =~= Seq::<(String, Vec<RawValue>)>::empty());
        assert(parse_inputs_spec(raw.required@.take(0int)) == Ok::<
            Seq<(Seq<char>, FieldV)>,
            (SchemaReason, Seq<char>),
        >(Seq::empty()));
        assert(state_view(input@) =~= Seq::<(Seq<char>, FieldV)>::empty());
    }
    while i < raw.required.len()
        invariant
            i <= raw.required@.len(),
            raw.output@.len() == raw.output_name@.len(),
            parse_inputs_spec(raw.required@.take(i as int)) == Ok::<
                Seq<(Seq<char>, FieldV)>,
                (SchemaReason, Seq<char>),
            >(state_view(input@)),
        decreases raw.required@.len() - i,
    {
        proof {
            assert(raw.required@.take(i as int + 1).drop_last() =~= raw.required@.take(i as int));
            assert(raw.required@.take(i as int + 1).last() == raw.required@[i as int]);
        }
        let name = &raw.required[i].0;
        let desc = &raw.required[i].1;
        match classify_input(desc) {
            Ok(field) => {
                let ghost prev = input@;
                let ghost fv = field@;
                input.push((name.clone(), field));
                proof {
                    assert(input@.drop_last() =~= prev);
                    assert(input@.last().0@ == name@);
                    assert(input@.last().1@ == fv);
                    assert(state_view(input@) =~= state_view(prev) + seq![(name@, fv)]);
                    assert(classify_spec(raw.required@[i as int].1@) == Ok::<
                        FieldV,
                        SchemaReason,
                    >(fv));
                }
            },
            Err(reason) => {
                proof {
                    lemma_parse_inputs_prefix_err(raw.required@, i as int);
                    assert(classify_spec(raw.required@[i as int].1@) is Err);
                    assert(classify_spec(raw.required@[i as int].1@)->Err_0 == reason);
                    assert(parse_inputs_spec(raw.required@) == Err::<
                        Seq<(Seq<char>, FieldV)>,
                        (SchemaReason, Seq<char>),
                    >((reason, raw.required@[i as int].0@)));
                    assert(raw.output@.len() == raw.output_name@.len());
                    assert(parse_node_spec(*raw) == Err::<NodeV, (SchemaReason, Seq<char>)>(
                        (reason, raw.required@[i as int].0@),
                    ));
                }
                return Err(
                    SchemaError { reason, kind_name: kind.clone(), field_name: name.clone() },
                );
            },
        }
        i = i + 1;
    }
    proof {
        assert(raw.required@.take(raw.required@.len() as int) =~= raw.required@);
    }
    Ok(
        Node {
            input,
            output: clone_strings(&raw.output),
            output_name: clone_strings(&raw.output_name),
            name: raw.name.clone(),
            display_name: raw.display_name.clone(),
            description: raw.description.clone(),
            category: raw.category.clone(),
            output_node: raw.output_node,
        },
    )
}

/// When a prefix of the inputs parses cleanly and the next input fails, the
/// whole list fails with that input's error.
proof fn lemma_parse_inputs_prefix_err(required: Seq<(String, Vec<RawValue>)>, i: int)
    requires
        0 <= i < required.len(),
        parse_inputs_spec(required.take(i)) is Ok,
        classify_spec(required[i].1@) is Err,
    ensures
        parse_inputs_spec(required) == Err::<Seq<(Seq<char>, FieldV)>, (SchemaReason, Seq<char>)>(
            (classify_spec(required[i].1@)->Err_0, required[i].0@),
        ),
    decreases required.len(),
{
    if required.len() == i + 1 {
        assert(required.drop_last() =~= required.take(i));
        assert(required.last() == required[i]);
    } else {
        assert(required.drop_last().take(i) =~= required.take(i));
        assert(required.drop_last()[i] == required[i]);
        lemma_parse_inputs_prefix_err(required.drop_last(), i);
    }
}

/// Parses the whole descriptor batch in order. One kind that fails ingestion
/// fails the batch: a partially parsed schema would silently corrupt what is
/// compiled from it later.
pub fn parse_batch(raw: &Vec<(String, RawNode)>) -> (r: Result<Vec<(String, Node)>, SchemaError>)
    ensures
        match r {
            Ok(nodes) => parse_batch_spec(raw@) == Ok::<
                Seq<(Seq<char>, NodeV)>,
                (SchemaReason, Seq<char>, Seq<char>),
            >(nodes@.map_values(|p: (String, Node)| (p.0@, p.1@))),
            Err(e) => parse_batch_spec(raw@) == Err::<
                Seq<(Seq<char>, NodeV)>,
                (SchemaReason, Seq<char>, Seq<char>),
            >((e.reason, e.kind_name@, e.field_name@)),
        },
{
    let ghost nv = |p: (String, Node)| (p.0@, p.1@);
    let mut nodes: Vec<(String, Node)> = Vec::new();
    let mut i: usize = 0;
    proof {
        assert(raw@.take(0int) =~= Seq::<(String, RawNode)>::empty());
        assert(nodes@.map_values(nv) =~= Seq::<(Seq<char>, NodeV)>::empty());
    }
    while i < raw.len()
        invariant
            i <= raw@.len(),
            nv == (|p: (String, Node)| (p.0@, p.1@)),
            parse_batch_spec(raw@.take(i as int)) == Ok::<
                Seq<(Seq<char>, NodeV)>,
                (SchemaReason, Seq<char>, Seq<char>),
            >(nodes@.map_values(nv)),
        decreases raw@.len() - i,
    {
        proof {
            assert(raw@.take(i as int + 1).drop_last() =~= raw@.take(i as int));
            assert(raw@.take(i as int + 1).last() == raw@[i as int]);
        }
        let kind = &raw[i].0;
        match parse_node(kind, &raw[i].1) {
            Ok(node) => {
                let ghost prev = nodes@;
                let ghost node_v = node@;
                nodes.push((kind.clone(), node));
                proof {
                    assert(nodes@.drop_last() =~= prev);
                    assert(nodes@.last().0@ == kind@);
                    assert(nodes@.last().1@ == node_v);
                    assert(nodes@.map_values(nv) =~= prev.map_values(nv) + seq![(kind@, node_v)]);
                    assert(parse_node_spec(raw@[i as int].1) == Ok::<
                        NodeV,
                        (SchemaReason, Seq<char>),
                    >(node_v));
                }
            },
            Err(e) => {
                proof {
                    lemma_parse_batch_prefix_err(raw@, i as int);
                    assert(parse_batch_spec(raw@) == Err::<
                        Seq<(Seq<char>, NodeV)>,
                        (SchemaReason, Seq<char>, Seq<char>),
                    >((e.reason, e.kind_name@, e.field_name@)));
                }
                return Err(e);
            },
        }
        i = i + 1;
    }
    proof {
        assert(raw@.take(raw@.len() as int) =~= raw@);
    }
    Ok(nodes)
}

/// When a prefix of the batch parses cleanly and the next kind fails, the
/// whole batch fails with that kind's error.
proof fn lemma_parse_batch_prefix_err(raw: Seq<(String, RawNode)>, i: int)
    requires
        0 <= i < raw.len(),
        parse_batch_spec(raw.take(i)) is Ok,
        parse_node_spec(raw[i].1) is Err,
    ensures
        parse_batch_spec(raw) == Err::<Seq<(Seq<char>, NodeV)>, (SchemaReason, Seq<char>, Seq<char>)>(
            (parse_node_spec(raw[i].1)->Err_0.0, raw[i].0@, parse_node_spec(raw[i].1)->Err_0.1),
        ),
    decreases raw.len(),
{
    if raw.len() == i + 1 {
        assert(raw.drop_last() =~= raw.take(i));
        assert(raw.last() == raw[i]);
    } else {
        assert(raw.drop_last().take(i) =~= raw.take(i));
        assert(raw.drop_last()[i] == raw[i]);
        lemma_parse_batch_prefix_err(raw.drop_last(), i);
    }
}

} // verus!

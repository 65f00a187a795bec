//! The field model: one input slot's declared type and current state.
//!
//! A field is a non-connection input of a node: numeric, text, boolean or a
//! drop-down selection. The same variant shape serves both as the declared
//! schema of an input (with its bounds and defaults) and as the live state of
//! a node instance; instantiation copies the declared default into the state
//! slot.

use vstd::prelude::*;
use vstd::string::StringExecFns;

verus! {

/// Relies on `str`'s `==`: two string slices are equal exactly when their
/// character sequences are.
pub assume_specification[ <str as PartialEq>::eq ](a: &str, b: &str) -> (r: bool)
    ensures
        r == (a@ == b@),
;

/// A numeric value carried as an IEEE-754 double-precision bit pattern.
///
/// The core stores, copies and compares these values; it never performs
/// floating-point arithmetic on them, so the bit pattern is all it needs.
/// The boundary layers convert to and from native floating point with
/// `to_bits`/`from_bits`.
#[derive(Clone, Copy, PartialEq, Eq, Structural, Debug)]
pub struct Real {
    pub bits: u64,
}

/// Bit pattern of 0.01, the fallback increment for numeric fields whose
/// descriptor declares no step.
pub const STEP_FALLBACK_BITS: u64 = 0x3F847AE147AE147B;

/// Bit pattern of the largest finite double, the fallback upper bound for
/// numeric fields whose descriptor declares no maximum.
pub const REAL_MAX_BITS: u64 = 0x7FEFFFFFFFFFFFFF;

impl Real {
    pub fn new(bits: u64) -> (r: Real)
        ensures
            r.bits == bits,
    {
        Real { bits }
    }
}

/// An integer input: bounds and default from the schema, plus the current
/// value.
#[derive(Clone, Copy, PartialEq, Eq, Structural, Debug)]
pub struct IntInput {
    pub default: i64,
    pub min: i64,
    pub max: i64,
    pub step: i64,
    pub state: i64,
}

/// A floating-point input: bounds and default from the schema, plus the
/// current value, all carried as bit patterns.
#[derive(Clone, Copy, PartialEq, Eq, Structural, Debug)]
pub struct FloatInput {
    pub default: Real,
    pub min: Real,
    pub max: Real,
    pub step: Real,
    pub state: Real,
}

/// A text input: the schema's presentation hint and optional default, plus
/// the current text.
#[derive(PartialEq, Eq, Debug)]
pub struct StringInput {
    pub multiline: bool,
    pub default: Option<String>,
    pub state: String,
}

/// A boolean input. The schema declares only a default; the default is also
/// what the compiled document reports for it.
#[derive(Clone, Copy, PartialEq, Eq, Structural, Debug)]
pub struct BoolInput {
    pub default: bool,
}

/// One input slot of a node kind: either a field carrying direct state, a
/// typed connection point, or `Unknown` for a descriptor shape the registry
/// could not classify (kept so that one odd input never aborts ingestion).
#[derive(PartialEq, Eq, Debug)]
pub enum NodeField {
    IntInput(IntInput),
    FloatInput(FloatInput),
    StringInput(StringInput),
    BoolInput(BoolInput),
    Select { options: Vec<String>, state: Option<usize> },
    Connection(String),
    Unknown,
}

/// Mathematical model of a `NodeField`.
pub enum FieldV {
    Int { default: i64, min: i64, max: i64, step: i64, state: i64 },
    Float { default: Real, min: Real, max: Real, step: Real, state: Real },
    Str { multiline: bool, default: Option<Seq<char>>, state: Seq<char> },
    Bool { default: bool },
    Select { options: Seq<Seq<char>>, state: Option<usize> },
    Connection { ty: Seq<char> },
    Unknown,
}

impl View for StringInput {
    type V = FieldV;

    open spec fn view(&self) -> FieldV {
        FieldV::Str {
            multiline: self.multiline,
            default: match self.default {
                Some(d) => Some(d@),
                None => None,
            },
            state: self.state@,
        }
    }
}

impl View for NodeField {
    type V = FieldV;

    open spec fn view(&self) -> FieldV {
        match self {
            NodeField::IntInput(i) => FieldV::Int {
                default: i.default,
                min: i.min,
                max: i.max,
                step: i.step,
                state: i.state,
            },
            NodeField::FloatInput(f) => FieldV::Float {
                default: f.default,
                min: f.min,
                max: f.max,
                step: f.step,
                state: f.state,
            },
            NodeField::StringInput(s) => s@,
            NodeField::BoolInput(b) => FieldV::Bool { default: b.default },
            NodeField::Select { options, state } => FieldV::Select {
                options: options@.map_values(|o: String| o@),
                state: *state,
            },
            NodeField::Connection(ty) => FieldV::Connection { ty: ty@ },
            NodeField::Unknown => FieldV::Unknown,
        }
    }
}

/// The reserved slot-type tag of integer fields.
pub const TY_INT: &'static str = "Kira__Reserved_Int";

/// The reserved slot-type tag of floating-point fields.
pub const TY_FLOAT: &'static str = "Kira__Reserved_Float";

/// The reserved slot-type tag of text fields.
pub const TY_STRING: &'static str = "Kira__Reserved_String";

/// The reserved slot-type tag of drop-down fields.
pub const TY_SELECT: &'static str = "Kira__Reserved_Select";

impl FieldV {
    /// The slot-type tag a field reports: a reserved tag for each field kind,
    /// the declared link type for a connection.
    pub open spec fn ty_spec(self) -> Seq<char> {
        match self {
            FieldV::Int { .. } => TY_INT@,
            FieldV::Float { .. } => TY_FLOAT@,
            FieldV::Str { .. } => TY_STRING@,
            FieldV::Bool { .. } => "bool"@,
            FieldV::Select { .. } => TY_SELECT@,
            FieldV::Connection { ty } => ty,
            FieldV::Unknown => "unknown"@,
        }
    }

    /// The current text of a field, if it has one: a text field's state, or a
    /// drop-down's selected option. A selection index at or past the end of
    /// the option list counts as no selection.
    pub open spec fn text_spec(self) -> Option<Seq<char>> {
        match self {
            FieldV::Str { state, .. } => Some(state),
            FieldV::Select { options, state } => match state {
                Some(i) => if i < options.len() {
                    Some(options[i as int])
                } else {
                    None
                },
                None => None,
            },
            _ => None,
        }
    }

    /// The current selection of a drop-down field. An index at or past the
    /// end of the option list counts as no selection.
    pub open spec fn option_spec(self) -> Option<usize> {
        match self {
            FieldV::Select { options, state } => match state {
                Some(i) => if i < options.len() {
                    Some(i)
                } else {
                    None
                },
                None => None,
            },
            _ => None,
        }
    }

    /// Whether this input is a connection point rather than a field.
    pub open spec fn is_connection_spec(self) -> bool {
        self is Connection
    }

    /// The field with its state reset to the declared default: numeric state
    /// to the default value, text to the default or empty, drop-downs to no
    /// selection. Connections, booleans and unknown inputs are unchanged.
    pub open spec fn default_state_spec(self) -> FieldV {
        match self {
            FieldV::Int { default, min, max, step, state: _ } => FieldV::Int {
                default,
                min,
                max,
                step,
                state: default,
            },
            FieldV::Float { default, min, max, step, state: _ } => FieldV::Float {
                default,
                min,
                max,
                step,
                state: default,
            },
            FieldV::Str { multiline, default, state: _ } => FieldV::Str {
                multiline,
                default,
                state: match default {
                    Some(d) => d,
                    None => Seq::empty(),
                },
            },
            FieldV::Bool { default } => FieldV::Bool { default },
            FieldV::Select { options, state: _ } => FieldV::Select { options, state: None },
            FieldV::Connection { ty } => FieldV::Connection { ty },
            FieldV::Unknown => FieldV::Unknown,
        }
    }
}

/// `st` is the selection that picking `text` by label leaves in a drop-down
/// with these options: the first option equal to the text, or no selection
/// when none matches.
pub open spec fn select_state_for(options: Seq<Seq<char>>, text: Seq<char>, st: Option<
    usize,
>) -> bool {
    match st {
        Some(i) => {
            &&& i < options.len()
            &&& options[i as int] == text
            &&& forall|j: int| 0 <= j < i ==> options[j] != text
        },
        None => forall|j: int| 0 <= j < options.len() ==> options[j] != text,
    }
}

/// `r` is `f` after its text was set to `text`: a text field's state becomes
/// the text, a drop-down selects the first matching option, and any other
/// input is unchanged.
pub open spec fn text_applied(f: FieldV, text: Seq<char>, r: FieldV) -> bool {
    match f {
        FieldV::Str { multiline, default, state: _ } => r == (FieldV::Str {
            multiline,
            default,
            state: text,
        }),
        FieldV::Select { options, state: _ } => {
            &&& r matches FieldV::Select { options: opts2, state: st2 }
            &&& opts2 == options
            &&& select_state_for(options, text, st2)
        },
        _ => r == f,
    }
}

/// `f` after its integer state was set to `value`: only an integer field
/// changes.
pub open spec fn int_applied(f: FieldV, value: i64) -> FieldV {
    match f {
        FieldV::Int { default, min, max, step, state: _ } => FieldV::Int {
            default,
            min,
            max,
            step,
            state: value,
        },
        _ => f,
    }
}

/// `f` after its floating-point state was set to `value`: only a
/// floating-point field changes.
pub open spec fn float_applied(f: FieldV, value: Real) -> FieldV {
    match f {
        FieldV::Float { default, min, max, step, state: _ } => FieldV::Float {
            default,
            min,
            max,
            step,
            state: value,
        },
        _ => f,
    }
}

/// `f` after its selection was set to `selection`: only a drop-down changes.
pub open spec fn option_applied(f: FieldV, selection: Option<usize>) -> FieldV {
    match f {
        FieldV::Select { options, state: _ } => FieldV::Select { options, state: selection },
        _ => f,
    }
}

impl Clone for StringInput {
    fn clone(&self) -> (r: Self)
        ensures
            r == *self,
    {
        StringInput {
            multiline: self.multiline,
            default: match &self.default {
                Some(d) => Some(d.clone()),
                None => None,
            },
            state: self.state.clone(),
        }
    }
}

impl Clone for NodeField {
    fn clone(&self) -> (r: Self)
        ensures
            r@ == self@,
    {
        match self {
            NodeField::IntInput(i) => NodeField::IntInput(*i),
            NodeField::FloatInput(f) => NodeField::FloatInput(*f),
            NodeField::StringInput(s) => NodeField::StringInput(s.clone()),
            NodeField::BoolInput(b) => NodeField::BoolInput(*b),
            NodeField::Select { options, state } => {
                let r = NodeField::Select { options: clone_strings(options), state: *state };
                proof {
                    assert(r@ is Select);
                }
                r
            },
            NodeField::Connection(ty) => NodeField::Connection(ty.clone()),
            NodeField::Unknown => NodeField::Unknown,
        }
    }
}

/// Clones a vector of strings, keeping every element's characters.
pub fn clone_strings(v: &Vec<String>) -> (r: Vec<String>)
    ensures
        r@.map_values(|o: String| o@) == v@.map_values(|o: String| o@),
        r@.len() == v@.len(),
{
    let mut r: Vec<String> = Vec::new();
    let mut i: usize = 0;
    while i < v.len()
        invariant
            i <= v@.len(),
            r@.len() == i,
            forall|j: int| 0 <= j < i ==> r@[j]@ == v@[j]@,
        decreases v@.len() - i,
    {
        r.push(v[i].clone());
        i = i + 1;
    }
    proof {
        assert(r@.map_values(|o: String| o@) =~= v@.map_values(|o: String| o@));
    }
    r
}

impl NodeField {
    /// The slot-type tag of this input, as shown to the user and recorded by
    /// the codec.
    pub fn ty(&self) -> (r: String)
        ensures
            r@ == self@.ty_spec(),
    {
        match self {
            NodeField::IntInput(_) => String::from_str(TY_INT),
            NodeField::FloatInput(_) => String::from_str(TY_FLOAT),
            NodeField::StringInput(_) => String::from_str(TY_STRING),
            NodeField::BoolInput(_) => String::from_str("bool"),
            NodeField::Select { .. } => String::from_str(TY_SELECT),
            NodeField::Connection(ty) => ty.clone(),
            NodeField::Unknown => String::from_str("unknown"),
        }
    }

    /// Whether this input is a connection point rather than a field.
    pub fn is_connection(&self) -> (r: bool)
        ensures
            r == self@.is_connection_spec(),
    {
        matches!(self, NodeField::Connection(_))
    }

    /// The option list of a drop-down field, or `None` for any other input.
    pub fn options(&self) -> (r: Option<Vec<String>>)
        ensures
            match self@ {
                FieldV::Select { options, .. } => {
                    &&& r is Some
                    &&& r->0@.map_values(|o: String| o@) == options
                },
                _ => r is None,
            },
    {
        match self {
            NodeField::Select { options, .. } => Some(clone_strings(options)),
            _ => None,
        }
    }

    /// The current text of this field, if it has one. A drop-down selection
    /// beyond the option list yields `None` rather than a failure.
    pub fn text(&self) -> (r: Option<String>)
        ensures
            match self@.text_spec() {
                Some(t) => r is Some && r->0@ == t,
                None => r is None,
            },
    {
        match self {
            NodeField::StringInput(input) => Some(input.state.clone()),
            NodeField::Select { options, state } => match state {
                Some(s) => if *s < options.len() {
                    Some(options[*s].clone())
                } else {
                    None
                },
                None => None,
            },
            _ => None,
        }
    }

    /// The current value of a floating-point field, or `None` for any other
    /// input.
    pub fn float(&self) -> (r: Option<Real>)
        ensures
            match self@ {
                FieldV::Float { state, .. } => r == Some(state),
                _ => r is None,
            },
    {
        match self {
            NodeField::FloatInput(input) => Some(input.state),
            _ => None,
        }
    }

    /// The current value of an integer field, or `None` for any other input.
    pub fn int_value(&self) -> (r: Option<i64>)
        ensures
            match self@ {
                FieldV::Int { state, .. } => r == Some(state),
                _ => r is None,
            },
    {
        match self {
            NodeField::IntInput(input) => Some(input.state),
            _ => None,
        }
    }

    /// The current selection of a drop-down field. An index beyond the option
    /// list counts as no selection.
    pub fn option(&self) -> (r: Option<usize>)
        ensures
            r == self@.option_spec(),
    {
        match self {
            NodeField::Select { options, state } => match state {
                Some(s) => if *s < options.len() {
                    Some(*s)
                } else {
                    None
                },
                None => None,
            },
            _ => None,
        }
    }

    /// Sets the text of a text field, or selects by label in a drop-down:
    /// the state becomes the first option equal to the text, or no selection
    /// when no option matches. Any other input is left unchanged.
    pub fn set_text(&mut self, text: String)
        ensures
            text_applied(old(self)@, text@, final(self)@),
    {
        match self {
            NodeField::StringInput(input) => {
                input.state = text;
            },
            NodeField::Select { options, state } => {
                let found = find_string(options, &text);
                *state = found;
            },
            _ => (),
        }
    }

    /// Sets the value of an integer field; any other input is left unchanged.
    pub fn set_int(&mut self, value: i64)
        ensures
            final(self)@ == int_applied(old(self)@, value),
    {
        if let NodeField::IntInput(input) = self {
            input.state = value;
        }
    }

    /// Sets the value of a floating-point field; any other input is left
    /// unchanged.
    pub fn set_float(&mut self, value: Real)
        ensures
            final(self)@ == float_applied(old(self)@, value),
    {
        if let NodeField::FloatInput(input) = self {
            input.state = value;
        }
    }

    /// Sets the selection of a drop-down field, as it stands, bounds checked
    /// only by the accessors; any other input is left unchanged.
    pub fn set_option(&mut self, selection: Option<usize>)
        ensures
            final(self)@ == option_applied(old(self)@, selection),
    {
        if let NodeField::Select { options: _, state } = self {
            *state = selection;
        }
    }

    /// A copy of this declared field with its state reset to the default, as
    /// instantiated when a node is added to the graph.
    pub fn with_default_state(&self) -> (r: NodeField)
        ensures
            r@ == self@.default_state_spec(),
    {
        match self {
            NodeField::IntInput(i) => NodeField::IntInput(IntInput { state: i.default, ..*i }),
            NodeField::FloatInput(f) => NodeField::FloatInput(
                FloatInput { state: f.default, ..*f },
            ),
            NodeField::StringInput(s) => {
                let state = match &s.default {
                    Some(d) => d.clone(),
                    None => String::new(),
                };
                NodeField::StringInput(
                    StringInput { multiline: s.multiline, default: s.default.clone(), state },
                )
            },
            NodeField::BoolInput(b) => NodeField::BoolInput(*b),
            NodeField::Select { options, state: _ } => NodeField::Select {
                options: clone_strings(options),
                state: None,
            },
            NodeField::Connection(ty) => NodeField::Connection(ty.clone()),
            NodeField::Unknown => NodeField::Unknown,
        }
    }
}

/// The serializable projection of one field's current state, as the
/// document format stores it positionally in a node's widget-value list.
#[derive(PartialEq, Eq, Debug)]
pub enum WidgetValue {
    IntVal(i64),
    FloatVal(Real),
    TextVal(String),
    BoolVal(bool),
    OptIndex(Option<usize>),
}

/// Mathematical model of a `WidgetValue`.
pub enum WidgetV {
    IntVal(i64),
    FloatVal(Real),
    TextVal(Seq<char>),
    BoolVal(bool),
    OptIndex(Option<usize>),
}

impl View for WidgetValue {
    type V = WidgetV;

    open spec fn view(&self) -> WidgetV {
        match self {
            WidgetValue::IntVal(v) => WidgetV::IntVal(*v),
            WidgetValue::FloatVal(v) => WidgetV::FloatVal(*v),
            WidgetValue::TextVal(s) => WidgetV::TextVal(s@),
            WidgetValue::BoolVal(b) => WidgetV::BoolVal(*b),
            WidgetValue::OptIndex(o) => WidgetV::OptIndex(*o),
        }
    }
}

impl Clone for WidgetValue {
    fn clone(&self) -> (r: Self)
        ensures
            r@ == self@,
    {
        match self {
            WidgetValue::IntVal(v) => WidgetValue::IntVal(*v),
            WidgetValue::FloatVal(v) => WidgetValue::FloatVal(*v),
            WidgetValue::TextVal(s) => WidgetValue::TextVal(s.clone()),
            WidgetValue::BoolVal(b) => WidgetValue::BoolVal(*b),
            WidgetValue::OptIndex(o) => WidgetValue::OptIndex(*o),
        }
    }
}

impl FieldV {
    /// The widget value a field contributes to the persisted document:
    /// numeric and text state as they stand, a boolean's declared default, a
    /// drop-down's selection with an out-of-range index treated as none.
    /// Connections and unknown inputs contribute nothing.
    pub open spec fn widget_spec(self) -> Option<WidgetV> {
        match self {
            FieldV::Int { state, .. } => Some(WidgetV::IntVal(state)),
            FieldV::Float { state, .. } => Some(WidgetV::FloatVal(state)),
            FieldV::Str { state, .. } => Some(WidgetV::TextVal(state)),
            FieldV::Bool { default } => Some(WidgetV::BoolVal(default)),
            FieldV::Select { .. } => Some(WidgetV::OptIndex(self.option_spec())),
            FieldV::Connection { .. } => None,
            FieldV::Unknown => None,
        }
    }
}

impl NodeField {
    /// The widget value this field contributes to the persisted document,
    /// or `None` for connections and unknown inputs.
    pub fn state(&self) -> (r: Option<WidgetValue>)
        ensures
            match self@.widget_spec() {
                Some(w) => r is Some && r->0@ == w,
                None => r is None,
            },
    {
        match self {
            NodeField::IntInput(input) => Some(WidgetValue::IntVal(input.state)),
            NodeField::FloatInput(input) => Some(WidgetValue::FloatVal(input.state)),
            NodeField::StringInput(input) => Some(WidgetValue::TextVal(input.state.clone())),
            NodeField::BoolInput(input) => Some(WidgetValue::BoolVal(input.default)),
            NodeField::Select { options, state } => {
                let sel = match state {
                    Some(s) => if *s < options.len() {
                        Some(*s)
                    } else {
                        None
                    },
                    None => None,
                };
                Some(WidgetValue::OptIndex(sel))
            },
            NodeField::Connection(_) => None,
            NodeField::Unknown => None,
        }
    }
}

/// The out-of-range boundary of drop-down selections: a selection index at
/// or past the end of the option list is treated as no selection by every
/// accessor, and never reaches the option list itself.
pub proof fn lemma_select_out_of_range(options: Seq<Seq<char>>, i: usize)
    requires
        i >= options.len(),
    ensures
        (FieldV::Select { options, state: Some(i) }).option_spec() is None,
        (FieldV::Select { options, state: Some(i) }).text_spec() is None,
        (FieldV::Select { options, state: Some(i) }).widget_spec() == Some(
            WidgetV::OptIndex(None),
        ),
{
}

/// The index of the first string in `v` equal to `text`, or `None` when no
/// element matches.
pub fn find_string(v: &Vec<String>, text: &String) -> (r: Option<usize>)
    ensures
        match r {
            Some(i) => {
                &&& i < v@.len()
                &&& v@[i as int]@ == text@
                &&& forall|j: int| 0 <= j < i ==> v@[j]@ != text@
            },
            None => forall|j: int| 0 <= j < v@.len() ==> v@[j]@ != text@,
        },
{
    let mut i: usize = 0;
    while i < v.len()
        invariant
            i <= v@.len(),
            forall|j: int| 0 <= j < i ==> v@[j]@ != text@,
        decreases v@.len() - i,
    {
        if v[i].eq(text) {
            return Some(i);
        }
        i = i + 1;
    }
    None
}

} // verus!

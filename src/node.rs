use vstd::prelude::*;

use crate::expr::{BinaryOperator, Expr, ExprError, ExprHandle, Module, UnaryNumericOperator};
use crate::graph::{SlotDef, SlotDefView, SlotDir};
use crate::values::{append_decimal, attribute_name, attribute_type, Attribute, BuiltInOperator, ValueType};

verus! {

/// Content of a list of slot declarations.
pub open spec fn def_views(defs: Seq<SlotDef>) -> Seq<SlotDefView> {
    defs.map_values(|d: SlotDef| d@)
}

/// Every input handle designates an expression of the module.
pub open spec fn handles_valid(module: &Module, inputs: Seq<ExprHandle>) -> bool {
    forall|k: int| 0 <= k < inputs.len() ==> (#[trigger] inputs[k])@ < module@.exprs.len()
}

/// Generic graph node.
pub trait Node {
    /// Declared slots, in declaration order.
    spec fn slot_defs(&self) -> Seq<SlotDefView>;

    /// Number of input expressions `eval` accepts.
    spec fn arity(&self) -> nat;

    /// Expressions `eval` appends to the module for the given inputs, one
    /// for each output.
    spec fn outputs_of(&self, inputs: Seq<ExprHandle>) -> Seq<Expr>;

    /// Get the slot declarations of this node.
    fn slots(&self) -> (r: &[SlotDef])
        ensures
            def_views(r@) == self.slot_defs(),
    ;

    /// Build the output expressions of the node from its input expressions.
    ///
    /// The expressions are not evaluated: "3 + 2" is not reduced to "5".
    /// An input count other than the node's arity is an evaluation error,
    /// and leaves the module as it was.
    fn eval(&self, module: &mut Module, inputs: Vec<ExprHandle>) -> (r: Result<
        Vec<ExprHandle>,
        ExprError,
    >)
        requires
            handles_valid(old(module), inputs@),
        ensures
            (r is Ok) == (inputs.len() == self.arity()),
            r matches Err(e) ==> e is GraphEvalError && final(module)@ == old(module)@,
            r matches Ok(outs) ==> {
                &&& final(module)@.properties == old(module)@.properties
                &&& final(module)@.exprs == old(module)@.exprs + self.outputs_of(inputs@)
                &&& outs.len() == self.outputs_of(inputs@).len()
                &&& forall|k: int|
                    0 <= k < outs.len() ==> (#[trigger] outs[k])@ == old(module)@.exprs.len() + k
            },
    ;
}

fn count_error(node: &str, expected: u64, got: usize) -> (r: ExprError)
    ensures
        r is GraphEvalError,
{
    let mut s = String::from_str("Unexpected input count to ");
    s.append(node);
    s.append("::eval(): expected ");
    append_decimal(&mut s, expected);
    s.append(", got ");
    append_decimal(&mut s, got as u64);
    ExprError::GraphEvalError(s)
}

fn binary_slots() -> (r: Vec<SlotDef>)
    ensures
        def_views(r@) == binary_slot_defs(),
{
    let r = vec![
        SlotDef::input("lhs", None),
        SlotDef::input("rhs", None),
        SlotDef::output("result", None),
    ];
    assert(def_views(r@) =~= binary_slot_defs());
    r
}

/// Slots of a binary operator node: two untyped inputs and one untyped output.
pub open spec fn binary_slot_defs() -> Seq<SlotDefView> {
    seq![
        SlotDefView { name: "lhs"@, dir: SlotDir::Input, value_type: None },
        SlotDefView { name: "rhs"@, dir: SlotDir::Input, value_type: None },
        SlotDefView { name: "result"@, dir: SlotDir::Output, value_type: None },
    ]
}

/// The expression a binary operator node builds from its two inputs.
pub open spec fn binary_outputs(op: BinaryOperator, inputs: Seq<ExprHandle>) -> Seq<Expr> {
    seq![Expr::Binary { op, left: inputs[0], right: inputs[1] }]
}

fn eval_binary(
    op: BinaryOperator,
    node: &str,
    module: &mut Module,
    inputs: Vec<ExprHandle>,
) -> (r: Result<Vec<ExprHandle>, ExprError>)
    requires
        handles_valid(old(module), inputs@),
    ensures
        (r is Ok) == (inputs.len() == 2),
        r matches Err(e) ==> e is GraphEvalError && final(module)@ == old(module)@,
        r matches Ok(outs) ==> {
            &&& final(module)@.properties == old(module)@.properties
            &&& final(module)@.exprs == old(module)@.exprs + binary_outputs(op, inputs@)
            &&& outs.len() == 1
            &&& outs[0]@ == old(module)@.exprs.len()
        },
{
    if inputs.len() != 2 {
        return Err(count_error(node, 2, inputs.len()));
    }
    let lhs = inputs[0];
    let rhs = inputs[1];
    assert(inputs@[0]@ < module@.exprs.len() && inputs@[1]@ < module@.exprs.len());
    let h = module.binary(op, lhs, rhs);
    assert(module@.exprs =~= old(module)@.exprs + binary_outputs(op, inputs@));
    Ok(vec![h])
}

/// Graph node to add two values.
#[derive(Debug, Clone)]
pub struct AddNode {
    slots: Vec<SlotDef>,
}

impl AddNode {
    /// Create a new node.
    pub fn new() -> (r: Self)
        ensures
            r.slot_defs() == binary_slot_defs(),
    {
        AddNode { slots: binary_slots() }
    }
}

impl Node for AddNode {
    closed spec fn slot_defs(&self) -> Seq<SlotDefView> {
        def_views(self.slots@)
    }

    open spec fn arity(&self) -> nat {
        2
    }

    open spec fn outputs_of(&self, inputs: Seq<ExprHandle>) -> Seq<Expr> {
        binary_outputs(BinaryOperator::Add, inputs)
    }

    fn slots(&self) -> (r: &[SlotDef]) {
        self.slots.as_slice()
    }

    fn eval(&self, module: &mut Module, inputs: Vec<ExprHandle>) -> (r: Result<
        Vec<ExprHandle>,
        ExprError,
    >) {
        eval_binary(BinaryOperator::Add, "AddNode", module, inputs)
    }
}

/// Graph node to subtract two values.
#[derive(Debug, Clone)]
pub struct SubNode {
    slots: Vec<SlotDef>,
}

impl SubNode {
    /// Create a new node.
    pub fn new() -> (r: Self)
        ensures
            r.slot_defs() == binary_slot_defs(),
    {
        SubNode { slots: binary_slots() }
    }
}

impl Node for SubNode {
    closed spec fn slot_defs(&self) -> Seq<SlotDefView> {
        def_views(self.slots@)
    }

    open spec fn arity(&self) -> nat {
        2
    }

    open spec fn outputs_of(&self, inputs: Seq<ExprHandle>) -> Seq<Expr> {
        binary_outputs(BinaryOperator::Sub, inputs)
    }

    fn slots(&self) -> (r: &[SlotDef]) {
        self.slots.as_slice()
    }

    fn eval(&self, module: &mut Module, inputs: Vec<ExprHandle>) -> (r: Result<
        Vec<ExprHandle>,
        ExprError,
    >) {
        eval_binary(BinaryOperator::Sub, "SubNode", module, inputs)
    }
}

/// Graph node to multiply two values.
#[derive(Debug, Clone)]
pub struct MulNode {
    slots: Vec<SlotDef>,
}

impl MulNode {
    /// Create a new node.
    pub fn new() -> (r: Self)
        ensures
            r.slot_defs() == binary_slot_defs(),
    {
        MulNode { slots: binary_slots() }
    }
}

impl Node for MulNode {
    closed spec fn slot_defs(&self) -> Seq<SlotDefView> {
        def_views(self.slots@)
    }

    open spec fn arity(&self) -> nat {
        2
    }

    open spec fn outputs_of(&self, inputs: Seq<ExprHandle>) -> Seq<Expr> {
        binary_outputs(BinaryOperator::Mul, inputs)
    }

    fn slots(&self) -> (r: &[SlotDef]) {
        self.slots.as_slice()
    }

    fn eval(&self, module: &mut Module, inputs: Vec<ExprHandle>) -> (r: Result<
        Vec<ExprHandle>,
        ExprError,
    >) {
        eval_binary(BinaryOperator::Mul, "MulNode", module, inputs)
    }
}

/// Graph node to divide two values.
#[derive(Debug, Clone)]
pub struct DivNode {
    slots: Vec<SlotDef>,
}

impl DivNode {
    /// Create a new node.
    pub fn new() -> (r: Self)
        ensures
            r.slot_defs() == binary_slot_defs(),
    {
        DivNode { slots: binary_slots() }
    }
}

impl Node for DivNode {
    closed spec fn slot_defs(&self) -> Seq<SlotDefView> {
        def_views(self.slots@)
    }

    open spec fn arity(&self) -> nat {
        2
    }

    open spec fn outputs_of(&self, inputs: Seq<ExprHandle>) -> Seq<Expr> {
        binary_outputs(BinaryOperator::Div, inputs)
    }

    fn slots(&self) -> (r: &[SlotDef]) {
        self.slots.as_slice()
    }

    fn eval(&self, module: &mut Module, inputs: Vec<ExprHandle>) -> (r: Result<
        Vec<ExprHandle>,
        ExprError,
    >) {
        eval_binary(BinaryOperator::Div, "DivNode", module, inputs)
    }
}

/// Slot of an attribute node: one output named and typed after the attribute.
pub open spec fn attribute_slot_defs(attr: Attribute) -> Seq<SlotDefView> {
    seq![
        SlotDefView {
            name: attribute_name(attr),
            dir: SlotDir::Output,
            value_type: Some(attribute_type(attr)),
        },
    ]
}

fn attribute_slots(attr: Attribute) -> (r: Vec<SlotDef>)
    ensures
        def_views(r@) == attribute_slot_defs(attr),
{
    let r = vec![SlotDef::output(attr.name(), Some(attr.value_type()))];
    assert(def_views(r@) =~= attribute_slot_defs(attr));
    r
}

/// Graph node to get any single particle attribute.
#[derive(Debug, Clone)]
pub struct AttributeNode {
    /// The attribute to get.
    attr: Attribute,
    /// The output slot corresponding to the value read.
    slots: Vec<SlotDef>,
}

impl AttributeNode {
    /// The attribute this node reads.
    pub closed spec fn spec_attr(&self) -> Attribute {
        self.attr
    }

    /// Create a new attribute node for the given attribute.
    pub fn new(attr: Attribute) -> (r: Self)
        ensures
            r.spec_attr() == attr,
            r.slot_defs() == attribute_slot_defs(attr),
    {
        AttributeNode { attr, slots: attribute_slots(attr) }
    }

    /// Get the attribute this node reads.
    pub fn attr(&self) -> (r: Attribute)
        ensures
            r == self.spec_attr(),
    {
        self.attr
    }

    /// Set the attribute this node reads; its output slot follows it.
    pub fn set_attr(&mut self, attr: Attribute)
        ensures
            final(self).spec_attr() == attr,
            final(self).slot_defs() == attribute_slot_defs(attr),
    {
        *self = AttributeNode { attr, slots: attribute_slots(attr) };
    }
}

impl Node for AttributeNode {
    closed spec fn slot_defs(&self) -> Seq<SlotDefView> {
        def_views(self.slots@)
    }

    open spec fn arity(&self) -> nat {
        0
    }

    open spec fn outputs_of(&self, inputs: Seq<ExprHandle>) -> Seq<Expr> {
        seq![Expr::Attribute(self.spec_attr())]
    }

    fn slots(&self) -> (r: &[SlotDef]) {
        self.slots.as_slice()
    }

    fn eval(&self, module: &mut Module, inputs: Vec<ExprHandle>) -> (r: Result<
        Vec<ExprHandle>,
        ExprError,
    >) {
        if inputs.len() != 0 {
            return Err(
                ExprError::GraphEvalError(
                    String::from_str("Unexpected non-empty input to AttributeNode::eval()."),
                ),
            );
        }
        let h = module.attr(self.attr);
        assert(module@.exprs =~= old(module)@.exprs + self.outputs_of(inputs@));
        Ok(vec![h])
    }
}

/// Slots of a time node: the elapsed time and the frame's delta time, in that order.
pub open spec fn time_slot_defs() -> Seq<SlotDefView> {
    seq![
        SlotDefView { name: "time"@, dir: SlotDir::Output, value_type: Some(ValueType::Float) },
        SlotDefView {
            name: "delta_time"@,
            dir: SlotDir::Output,
            value_type: Some(ValueType::Float),
        },
    ]
}

/// Graph node to get the time values of the simulation.
#[derive(Debug, Clone)]
pub struct TimeNode {
    /// Output slots of the time quantities.
    slots: Vec<SlotDef>,
}

impl TimeNode {
    /// Create a new time node.
    pub fn new() -> (r: Self)
        ensures
            r.slot_defs() == time_slot_defs(),
    {
        let t = BuiltInOperator::Time;
        let d = BuiltInOperator::DeltaTime;
        let slots = vec![
            SlotDef::output(t.name(), Some(t.value_type())),
            SlotDef::output(d.name(), Some(d.value_type())),
        ];
        assert(def_views(slots@) =~= time_slot_defs());
        TimeNode { slots }
    }
}

impl Node for TimeNode {
    closed spec fn slot_defs(&self) -> Seq<SlotDefView> {
        def_views(self.slots@)
    }

    open spec fn arity(&self) -> nat {
        0
    }

    open spec fn outputs_of(&self, inputs: Seq<ExprHandle>) -> Seq<Expr> {
        seq![Expr::BuiltIn(BuiltInOperator::Time), Expr::BuiltIn(BuiltInOperator::DeltaTime)]
    }

    fn slots(&self) -> (r: &[SlotDef]) {
        self.slots.as_slice()
    }

    fn eval(&self, module: &mut Module, inputs: Vec<ExprHandle>) -> (r: Result<
        Vec<ExprHandle>,
        ExprError,
    >) {
        if inputs.len() != 0 {
            return Err(
                ExprError::GraphEvalError(
                    String::from_str("Unexpected non-empty input to TimeNode::eval()."),
                ),
            );
        }
        let t = module.builtin(BuiltInOperator::Time);
        let d = module.builtin(BuiltInOperator::DeltaTime);
        assert(module@.exprs =~= old(module)@.exprs + self.outputs_of(inputs@));
        Ok(vec![t, d])
    }
}

/// Slots of a normalize node: one untyped input and one untyped output.
pub open spec fn normalize_slot_defs() -> Seq<SlotDefView> {
    seq![
        SlotDefView { name: "in"@, dir: SlotDir::Input, value_type: None },
        SlotDefView { name: "out"@, dir: SlotDir::Output, value_type: None },
    ]
}

/// Graph node to normalize a vector value.
#[derive(Debug, Clone)]
pub struct NormalizeNode {
    /// Input and output vectors.
    slots: Vec<SlotDef>,
}

impl NormalizeNode {
    /// Create a new normalize node.
    pub fn new() -> (r: Self)
        ensures
            r.slot_defs() == normalize_slot_defs(),
    {
        let slots = vec![SlotDef::input("in", None), SlotDef::output("out", None)];
        assert(def_views(slots@) =~= normalize_slot_defs());
        NormalizeNode { slots }
    }
}

impl Node for NormalizeNode {
    closed spec fn slot_defs(&self) -> Seq<SlotDefView> {
        def_views(self.slots@)
    }

    open spec fn arity(&self) -> nat {
        1
    }

    open spec fn outputs_of(&self, inputs: Seq<ExprHandle>) -> Seq<Expr> {
        seq![Expr::Unary { op: UnaryNumericOperator::Normalize, expr: inputs[0] }]
    }

    fn slots(&self) -> (r: &[SlotDef]) {
        self.slots.as_slice()
    }

    fn eval(&self, module: &mut Module, inputs: Vec<ExprHandle>) -> (r: Result<
        Vec<ExprHandle>,
        ExprError,
    >) {
        if inputs.len() != 1 {
            return Err(
                ExprError::GraphEvalError(
                    String::from_str(
                        "Unexpected input slot count to NormalizeNode::eval() not equal to one.",
                    ),
                ),
            );
        }
        let x = inputs[0];
        assert(inputs@[0]@ < module@.exprs.len());
        let h = module.unary(UnaryNumericOperator::Normalize, x);
        assert(module@.exprs =~= old(module)@.exprs + self.outputs_of(inputs@));
        Ok(vec![h])
    }
}


/// The operator of a binary operator node.
pub open spec fn binary_op_of(node: AnyNode) -> Option<BinaryOperator> {
    match node {
        AnyNode::Add(_) => Some(BinaryOperator::Add),
        AnyNode::Sub(_) => Some(BinaryOperator::Sub),
        AnyNode::Mul(_) => Some(BinaryOperator::Mul),
        AnyNode::Div(_) => Some(BinaryOperator::Div),
        _ => None,
    }
}

/// Any of the node kinds this library provides.
#[derive(Debug, Clone)]
pub enum AnyNode {
    Add(AddNode),
    Sub(SubNode),
    Mul(MulNode),
    Div(DivNode),
    Attribute(AttributeNode),
    Time(TimeNode),
    Normalize(NormalizeNode),
}

impl Node for AnyNode {
    open spec fn slot_defs(&self) -> Seq<SlotDefView> {
        match self {
            AnyNode::Add(n) => n.slot_defs(),
            AnyNode::Sub(n) => n.slot_defs(),
            AnyNode::Mul(n) => n.slot_defs(),
            AnyNode::Div(n) => n.slot_defs(),
            AnyNode::Attribute(n) => n.slot_defs(),
            AnyNode::Time(n) => n.slot_defs(),
            AnyNode::Normalize(n) => n.slot_defs(),
        }
    }

    open spec fn arity(&self) -> nat {
        match self {
            AnyNode::Add(n) => n.arity(),
            AnyNode::Sub(n) => n.arity(),
            AnyNode::Mul(n) => n.arity(),
            AnyNode::Div(n) => n.arity(),
            AnyNode::Attribute(n) => n.arity(),
            AnyNode::Time(n) => n.arity(),
            AnyNode::Normalize(n) => n.arity(),
        }
    }

    open spec fn outputs_of(&self, inputs: Seq<ExprHandle>) -> Seq<Expr> {
        match self {
            AnyNode::Add(n) => n.outputs_of(inputs),
            AnyNode::Sub(n) => n.outputs_of(inputs),
            AnyNode::Mul(n) => n.outputs_of(inputs),
            AnyNode::Div(n) => n.outputs_of(inputs),
            AnyNode::Attribute(n) => n.outputs_of(inputs),
            AnyNode::Time(n) => n.outputs_of(inputs),
            AnyNode::Normalize(n) => n.outputs_of(inputs),
        }
    }

    fn slots(&self) -> (r: &[SlotDef]) {
        match self {
            AnyNode::Add(n) => n.slots(),
            AnyNode::Sub(n) => n.slots(),
            AnyNode::Mul(n) => n.slots(),
            AnyNode::Div(n) => n.slots(),
            AnyNode::Attribute(n) => n.slots(),
            AnyNode::Time(n) => n.slots(),
            AnyNode::Normalize(n) => n.slots(),
        }
    }

    fn eval(&self, module: &mut Module, inputs: Vec<ExprHandle>) -> (r: Result<
        Vec<ExprHandle>,
        ExprError,
    >) {
        match self {
            AnyNode::Add(n) => n.eval(module, inputs),
            AnyNode::Sub(n) => n.eval(module, inputs),
            AnyNode::Mul(n) => n.eval(module, inputs),
            AnyNode::Div(n) => n.eval(module, inputs),
            AnyNode::Attribute(n) => n.eval(module, inputs),
            AnyNode::Time(n) => n.eval(module, inputs),
            AnyNode::Normalize(n) => n.eval(module, inputs),
        }
    }
}

} // verus!

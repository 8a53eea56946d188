use vstd::prelude::*;

use crate::values::{
    attribute_name, attribute_type, built_in_text, value_text, value_type_of, Attribute,
    BuiltInOperator, Value, ValueType,
};

verus! {

/// Handle to an expression stored in a [`Module`].
#[derive(Debug, Clone, Copy, PartialEq, Eq, Structural, Hash)]
pub struct ExprHandle(usize);

impl View for ExprHandle {
    type V = nat;

    closed spec fn view(&self) -> nat {
        self.0 as nat
    }
}

impl ExprHandle {
    /// Create a handle to the expression at a zero-based index.
    pub fn new(index: usize) -> (r: Self)
        ensures
            r@ == index,
    {
        ExprHandle(index)
    }

    /// Get the zero-based index of the expression in its module.
    pub fn index(&self) -> (r: usize)
        ensures
            r == self@,
    {
        self.0
    }

    /// Two handles are equal exactly when their indices are.
    pub proof fn lemma_view_eq(a: ExprHandle, b: ExprHandle)
        ensures
            (a@ == b@) == (a == b),
    {
    }
}

/// Handle to a property declared in a [`Module`].
#[derive(Debug, Clone, Copy, PartialEq, Eq, Structural, Hash)]
pub struct PropertyHandle(usize);

impl View for PropertyHandle {
    type V = nat;

    closed spec fn view(&self) -> nat {
        self.0 as nat
    }
}

/// Binary arithmetic operator.
#[derive(Debug, Clone, Copy, PartialEq, Eq, Structural, Hash)]
pub enum BinaryOperator {
    Add,
    Sub,
    Mul,
    Div,
}

/// Shader symbol of a binary operator.
pub open spec fn binary_symbol(op: BinaryOperator) -> Seq<char> {
    match op {
        BinaryOperator::Add => seq!['+'],
        BinaryOperator::Sub => seq!['-'],
        BinaryOperator::Mul => seq!['*'],
        BinaryOperator::Div => seq!['/'],
    }
}

impl BinaryOperator {
    /// Get the shader symbol of the operator.
    pub fn symbol(&self) -> (r: &'static str)
        ensures
            r@ == binary_symbol(*self),
    {
        proof {
            reveal_strlit("+");
            reveal_strlit("-");
            reveal_strlit("*");
            reveal_strlit("/");
        }
        match self {
            BinaryOperator::Add => "+",
            BinaryOperator::Sub => "-",
            BinaryOperator::Mul => "*",
            BinaryOperator::Div => "/",
        }
    }
}

/// Unary numeric operator, rendered as a shader function call.
#[derive(Debug, Clone, Copy, PartialEq, Eq, Structural, Hash)]
pub enum UnaryNumericOperator {
    Abs,
    Length,
    Normalize,
}

/// Shader function name of a unary operator.
pub open spec fn unary_name(op: UnaryNumericOperator) -> Seq<char> {
    match op {
        UnaryNumericOperator::Abs => "abs"@,
        UnaryNumericOperator::Length => "length"@,
        UnaryNumericOperator::Normalize => "normalize"@,
    }
}

impl UnaryNumericOperator {
    /// Get the shader function name of the operator.
    pub fn name(&self) -> (r: &'static str)
        ensures
            r@ == unary_name(*self),
    {
        match self {
            UnaryNumericOperator::Abs => "abs",
            UnaryNumericOperator::Length => "length",
            UnaryNumericOperator::Normalize => "normalize",
        }
    }
}

/// A single expression of a [`Module`]; children are referenced by handle.
#[derive(Debug, Clone, Copy, PartialEq, Eq, Structural, Hash)]
pub enum Expr {
    Literal(Value),
    Attribute(Attribute),
    BuiltIn(BuiltInOperator),
    Property(PropertyHandle),
    Binary { op: BinaryOperator, left: ExprHandle, right: ExprHandle },
    Unary { op: UnaryNumericOperator, expr: ExprHandle },
}

/// Error produced while building or rendering expressions.
#[derive(Debug, Clone, PartialEq, Eq)]
pub enum ExprError {
    /// A graph node was evaluated with inputs it does not accept.
    GraphEvalError(String),
    /// A handle does not designate an expression of the module.
    InvalidExprHandleError(String),
}

/// Mathematical content of a [`Module`]: its expressions, and the name and
/// type of each declared property.
pub struct ModuleView {
    pub exprs: Seq<Expr>,
    pub properties: Seq<(Seq<char>, ValueType)>,
}

/// Every handle held by an expression designates an earlier expression, and
/// every property handle a declared property.
pub open spec fn expr_wf(m: ModuleView, i: int) -> bool {
    match m.exprs[i] {
        Expr::Property(p) => p@ < m.properties.len(),
        Expr::Binary { op, left, right } => left@ < i && right@ < i,
        Expr::Unary { op, expr } => expr@ < i,
        _ => true,
    }
}

pub open spec fn module_wf(m: ModuleView) -> bool {
    forall|i: int| 0 <= i < m.exprs.len() ==> #[trigger] expr_wf(m, i)
}

/// `a` is `b` with possibly more expressions and properties appended.
pub open spec fn module_prefix(a: ModuleView, b: ModuleView) -> bool {
    &&& a.exprs.len() <= b.exprs.len()
    &&& a.properties.len() <= b.properties.len()
    &&& forall|i: int| 0 <= i < a.exprs.len() ==> a.exprs[i] == b.exprs[i]
    &&& forall|i: int| 0 <= i < a.properties.len() ==> a.properties[i] == b.properties[i]
}

/// Shader text of the expression at index `h`, with each child rendered in place.
pub open spec fn render(m: ModuleView, h: nat) -> Seq<char>
    decreases h,
{
    if h < m.exprs.len() {
        match m.exprs[h as int] {
            Expr::Literal(v) => value_text(v),
            Expr::Attribute(a) => "particle."@ + attribute_name(a),
            Expr::BuiltIn(op) => built_in_text(op),
            Expr::Property(p) => if p@ < m.properties.len() {
                "properties."@ + m.properties[p@ as int].0
            } else {
                Seq::empty()
            },
            Expr::Binary { op, left, right } => if left@ < h && right@ < h {
                "("@ + render(m, left@) + ") "@ + binary_symbol(op) + " ("@ + render(m, right@)
                    + ")"@
            } else {
                Seq::empty()
            },
            Expr::Unary { op, expr } => if expr@ < h {
                unary_name(op) + "("@ + render(m, expr@) + ")"@
            } else {
                Seq::empty()
            },
        }
    } else {
        Seq::empty()
    }
}

/// Type of the value of the expression at index `h`; `None` where it depends
/// on a type that is only known once the shader is assembled.
pub open spec fn value_type_at(m: ModuleView, h: nat) -> Option<ValueType> {
    if h < m.exprs.len() {
        match m.exprs[h as int] {
            Expr::Literal(v) => Some(value_type_of(v)),
            Expr::Attribute(a) => Some(attribute_type(a)),
            Expr::BuiltIn(op) => Some(ValueType::Float),
            Expr::Property(p) => if p@ < m.properties.len() {
                Some(m.properties[p@ as int].1)
            } else {
                None
            },
            _ => None,
        }
    } else {
        None
    }
}

/// Appending expressions or properties does not change how an existing
/// expression renders.
pub proof fn lemma_render_prefix(a: ModuleView, b: ModuleView, h: nat)
    requires
        module_wf(a),
        module_prefix(a, b),
        h < a.exprs.len(),
    ensures
        render(a, h) == render(b, h),
    decreases h,
{
    assert(expr_wf(a, h as int));
    match a.exprs[h as int] {
        Expr::Binary { op, left, right } => {
            lemma_render_prefix(a, b, left@);
            lemma_render_prefix(a, b, right@);
        },
        Expr::Unary { op, expr } => {
            lemma_render_prefix(a, b, expr@);
        },
        _ => {},
    }
}

struct Property {
    name: String,
    value_type: ValueType,
}

/// Arena owning every expression built for an effect. Expressions are only
/// ever appended, so a handle stays valid for the module's lifetime.
pub struct Module {
    exprs: Vec<Expr>,
    properties: Vec<Property>,
}

impl View for Module {
    type V = ModuleView;

    closed spec fn view(&self) -> ModuleView {
        ModuleView {
            exprs: self.exprs@,
            properties: self.properties@.map_values(|p: Property| (p.name@, p.value_type)),
        }
    }
}

impl Module {
    #[verifier::type_invariant]
    pub(crate) open spec fn inv(&self) -> bool {
        module_wf(self@)
    }

    /// Create an empty module.
    pub fn new() -> (r: Self)
        ensures
            r@.exprs == Seq::<Expr>::empty(),
            r@.properties == Seq::<(Seq<char>, ValueType)>::empty(),
    {
        let r = Module { exprs: Vec::new(), properties: Vec::new() };
        assert(r@.properties =~= Seq::<(Seq<char>, ValueType)>::empty());
        r
    }

    /// Number of expressions in the module.
    pub fn len(&self) -> (r: usize)
        ensures
            r == self@.exprs.len(),
    {
        self.exprs.len()
    }

    /// Check whether a handle designates an expression of this module.
    pub fn is_valid(&self, handle: ExprHandle) -> (r: bool)
        ensures
            r == (handle@ < self@.exprs.len()),
    {
        handle.index() < self.exprs.len()
    }

    /// Get the expression a handle designates.
    pub fn get(&self, handle: ExprHandle) -> (r: Expr)
        requires
            handle@ < self@.exprs.len(),
        ensures
            r == self@.exprs[handle@ as int],
    {
        self.exprs[handle.index()]
    }

    /// Name of a declared property.
    pub fn property_name(&self, property: PropertyHandle) -> (r: &str)
        requires
            property@ < self@.properties.len(),
        ensures
            r@ == self@.properties[property@ as int].0,
    {
        self.properties[property.0].name.as_str()
    }

    /// Type of a value, if known without assembling the shader.
    pub fn value_type(&self, handle: ExprHandle) -> (r: Option<ValueType>)
        ensures
            r == value_type_at(self@, handle@),
    {
        if handle.index() >= self.exprs.len() {
            return None;
        }
        match self.exprs[handle.index()] {
            Expr::Literal(v) => Some(v.value_type()),
            Expr::Attribute(a) => Some(a.value_type()),
            Expr::BuiltIn(op) => Some(op.value_type()),
            Expr::Property(p) => {
                proof {
                    use_type_invariant(self);
                    assert(expr_wf(self@, handle@ as int));
                }
                Some(self.properties[p.0].value_type)
            },
            _ => None,
        }
    }

    /// Declare a new property.
    pub fn add_property(&mut self, name: &str, value_type: ValueType) -> (r: PropertyHandle)
        ensures
            final(self)@.exprs == old(self)@.exprs,
            final(self)@.properties == old(self)@.properties.push((name@, value_type)),
            r@ == old(self)@.properties.len(),
    {
        proof {
            use_type_invariant(&*self);
        }
        let r = PropertyHandle(self.properties.len());
        let mut exprs = Vec::new();
        let mut properties = Vec::new();
        std::mem::swap(&mut exprs, &mut self.exprs);
        std::mem::swap(&mut properties, &mut self.properties);
        properties.push(Property { name: String::from_str(name), value_type });
        let ghost m = ModuleView {
            exprs: exprs@,
            properties: properties@.map_values(|p: Property| (p.name@, p.value_type)),
        };
        assert(m.properties =~= old(self)@.properties.push((name@, value_type)));
        assert forall|i: int| 0 <= i < m.exprs.len() implies #[trigger] expr_wf(m, i) by {
            assert(expr_wf(old(self)@, i));
        }
        *self = Module { exprs, properties };
        r
    }

    /// Append an expression; its handles must already be valid.
    pub fn push(&mut self, expr: Expr) -> (r: ExprHandle)
        requires
            ({
                let m = old(self)@;
                match expr {
                    Expr::Property(p) => p@ < m.properties.len(),
                    Expr::Binary { op, left, right } => left@ < m.exprs.len() && right@
                        < m.exprs.len(),
                    Expr::Unary { op, expr } => expr@ < m.exprs.len(),
                    _ => true,
                }
            }),
        ensures
            final(self)@.exprs == old(self)@.exprs.push(expr),
            final(self)@.properties == old(self)@.properties,
            r@ == old(self)@.exprs.len(),
    {
        proof {
            use_type_invariant(&*self);
        }
        let r = ExprHandle::new(self.exprs.len());
        let mut exprs = Vec::new();
        let mut properties = Vec::new();
        std::mem::swap(&mut exprs, &mut self.exprs);
        std::mem::swap(&mut properties, &mut self.properties);
        exprs.push(expr);
        let ghost m = ModuleView {
            exprs: exprs@,
            properties: properties@.map_values(|p: Property| (p.name@, p.value_type)),
        };
        assert(m.properties =~= old(self)@.properties);
        assert forall|i: int| 0 <= i < m.exprs.len() implies #[trigger] expr_wf(m, i) by {
            if i < old(self)@.exprs.len() {
                assert(expr_wf(old(self)@, i));
            }
        }
        *self = Module { exprs, properties };
        r
    }

    /// Append a literal expression.
    pub fn lit(&mut self, value: Value) -> (r: ExprHandle)
        ensures
            final(self)@.exprs == old(self)@.exprs.push(Expr::Literal(value)),
            final(self)@.properties == old(self)@.properties,
            r@ == old(self)@.exprs.len(),
    {
        self.push(Expr::Literal(value))
    }

    /// Append an expression reading a particle attribute.
    pub fn attr(&mut self, attr: Attribute) -> (r: ExprHandle)
        ensures
            final(self)@.exprs == old(self)@.exprs.push(Expr::Attribute(attr)),
            final(self)@.properties == old(self)@.properties,
            r@ == old(self)@.exprs.len(),
    {
        self.push(Expr::Attribute(attr))
    }

    /// Append an expression reading a built-in quantity.
    pub fn builtin(&mut self, op: BuiltInOperator) -> (r: ExprHandle)
        ensures
            final(self)@.exprs == old(self)@.exprs.push(Expr::BuiltIn(op)),
            final(self)@.properties == old(self)@.properties,
            r@ == old(self)@.exprs.len(),
    {
        self.push(Expr::BuiltIn(op))
    }

    /// Append an expression reading a declared property.
    pub fn prop(&mut self, property: PropertyHandle) -> (r: ExprHandle)
        requires
            property@ < old(self)@.properties.len(),
        ensures
            final(self)@.exprs == old(self)@.exprs.push(Expr::Property(property)),
            final(self)@.properties == old(self)@.properties,
            r@ == old(self)@.exprs.len(),
    {
        self.push(Expr::Property(property))
    }

    /// Append a binary expression over two existing expressions.
    pub fn binary(&mut self, op: BinaryOperator, left: ExprHandle, right: ExprHandle) -> (r:
        ExprHandle)
        requires
            left@ < old(self)@.exprs.len(),
            right@ < old(self)@.exprs.len(),
        ensures
            final(self)@.exprs == old(self)@.exprs.push(Expr::Binary { op, left, right }),
            final(self)@.properties == old(self)@.properties,
            r@ == old(self)@.exprs.len(),
    {
        self.push(Expr::Binary { op, left, right })
    }

    /// Append a unary expression over an existing expression.
    pub fn unary(&mut self, op: UnaryNumericOperator, expr: ExprHandle) -> (r: ExprHandle)
        requires
            expr@ < old(self)@.exprs.len(),
        ensures
            final(self)@.exprs == old(self)@.exprs.push(Expr::Unary { op, expr }),
            final(self)@.properties == old(self)@.properties,
            r@ == old(self)@.exprs.len(),
    {
        self.push(Expr::Unary { op, expr })
    }
}

} // verus!

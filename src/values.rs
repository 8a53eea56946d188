use vstd::prelude::*;

verus! {

/// Type of a value flowing through a slot or produced by an expression.
#[derive(Debug, Clone, Copy, PartialEq, Eq, Structural, Hash)]
pub enum ValueType {
    Bool,
    Int,
    Uint,
    Float,
    Float2,
    Float3,
    Float4,
}

/// A particle attribute that expressions can read.
#[derive(Debug, Clone, Copy, PartialEq, Eq, Structural, Hash)]
pub enum Attribute {
    Position,
    Velocity,
    Age,
    Lifetime,
    Color,
    Size,
    F32x3_0,
}

/// Name of an attribute, as it appears in the particle struct.
pub open spec fn attribute_name(a: Attribute) -> Seq<char> {
    match a {
        Attribute::Position => "position"@,
        Attribute::Velocity => "velocity"@,
        Attribute::Age => "age"@,
        Attribute::Lifetime => "lifetime"@,
        Attribute::Color => "color"@,
        Attribute::Size => "size"@,
        Attribute::F32x3_0 => "f32x3_0"@,
    }
}

/// Type of the values an attribute holds.
pub open spec fn attribute_type(a: Attribute) -> ValueType {
    match a {
        Attribute::Position => ValueType::Float3,
        Attribute::Velocity => ValueType::Float3,
        Attribute::Age => ValueType::Float,
        Attribute::Lifetime => ValueType::Float,
        Attribute::Color => ValueType::Uint,
        Attribute::Size => ValueType::Float,
        Attribute::F32x3_0 => ValueType::Float3,
    }
}

impl Attribute {
    /// Get the attribute name.
    pub fn name(&self) -> (r: &'static str)
        ensures
            r@ == attribute_name(*self),
    {
        match self {
            Attribute::Position => "position",
            Attribute::Velocity => "velocity",
            Attribute::Age => "age",
            Attribute::Lifetime => "lifetime",
            Attribute::Color => "color",
            Attribute::Size => "size",
            Attribute::F32x3_0 => "f32x3_0",
        }
    }

    /// Get the type of the attribute values.
    pub fn value_type(&self) -> (r: ValueType)
        ensures
            r == attribute_type(*self),
    {
        match self {
            Attribute::Position => ValueType::Float3,
            Attribute::Velocity => ValueType::Float3,
            Attribute::Age => ValueType::Float,
            Attribute::Lifetime => ValueType::Float,
            Attribute::Color => ValueType::Uint,
            Attribute::Size => ValueType::Float,
            Attribute::F32x3_0 => ValueType::Float3,
        }
    }
}

/// A quantity provided by the simulation itself.
#[derive(Debug, Clone, Copy, PartialEq, Eq, Structural, Hash)]
pub enum BuiltInOperator {
    /// Time elapsed since the simulation started.
    Time,
    /// Time elapsed since the previous frame.
    DeltaTime,
}

/// Name of a built-in quantity.
pub open spec fn built_in_name(op: BuiltInOperator) -> Seq<char> {
    match op {
        BuiltInOperator::Time => "time"@,
        BuiltInOperator::DeltaTime => "delta_time"@,
    }
}

/// Shader text that reads a built-in quantity.
pub open spec fn built_in_text(op: BuiltInOperator) -> Seq<char> {
    "sim_params."@ + built_in_name(op)
}

impl BuiltInOperator {
    /// Get the name of the quantity.
    pub fn name(&self) -> (r: &'static str)
        ensures
            r@ == built_in_name(*self),
    {
        match self {
            BuiltInOperator::Time => "time",
            BuiltInOperator::DeltaTime => "delta_time",
        }
    }

    /// Get the type of the quantity.
    pub fn value_type(&self) -> (r: ValueType)
        ensures
            r == ValueType::Float,
    {
        ValueType::Float
    }

    /// Get the shader text that reads the quantity.
    pub fn to_wgsl_string(&self) -> (r: String)
        ensures
            r@ == built_in_text(*self),
    {
        let mut s = String::from_str("sim_params.");
        s.append(self.name());
        s
    }
}

/// A constant value embedded in an expression.
#[derive(Debug, Clone, Copy, PartialEq, Eq, Structural, Hash)]
pub enum Value {
    Bool(bool),
    Int(i32),
    Uint(u32),
}

/// The character of a decimal digit.
pub open spec fn digit_char(d: nat) -> char {
    if d == 0 { '0' }
    else if d == 1 { '1' }
    else if d == 2 { '2' }
    else if d == 3 { '3' }
    else if d == 4 { '4' }
    else if d == 5 { '5' }
    else if d == 6 { '6' }
    else if d == 7 { '7' }
    else if d == 8 { '8' }
    else { '9' }
}

/// Decimal digits of a natural number, most significant first, without leading zeros.
pub open spec fn decimal(n: nat) -> Seq<char>
    decreases n,
{
    if n < 10 {
        seq![digit_char(n)]
    } else {
        decimal(n / 10).push(digit_char(n % 10))
    }
}

/// Shader text of a constant value.
pub open spec fn value_text(v: Value) -> Seq<char> {
    match v {
        Value::Bool(b) => if b { "true"@ } else { "false"@ },
        Value::Int(i) => if i < 0 { seq!['-'] + decimal((-i) as nat) } else { decimal(i as nat) },
        Value::Uint(u) => decimal(u as nat).push('u'),
    }
}

/// Type of a constant value.
pub open spec fn value_type_of(v: Value) -> ValueType {
    match v {
        Value::Bool(_) => ValueType::Bool,
        Value::Int(_) => ValueType::Int,
        Value::Uint(_) => ValueType::Uint,
    }
}

fn digit_str(d: u64) -> (r: &'static str)
    requires
        d < 10,
    ensures
        r@ == seq![digit_char(d as nat)],
{
    proof {
        reveal_strlit("0");
        reveal_strlit("1");
        reveal_strlit("2");
        reveal_strlit("3");
        reveal_strlit("4");
        reveal_strlit("5");
        reveal_strlit("6");
        reveal_strlit("7");
        reveal_strlit("8");
        reveal_strlit("9");
    }
    if d == 0 { "0" }
    else if d == 1 { "1" }
    else if d == 2 { "2" }
    else if d == 3 { "3" }
    else if d == 4 { "4" }
    else if d == 5 { "5" }
    else if d == 6 { "6" }
    else if d == 7 { "7" }
    else if d == 8 { "8" }
    else { "9" }
}

/// Append the decimal digits of `n`.
pub(crate) fn append_decimal(s: &mut String, n: u64)
    ensures
        final(s)@ == old(s)@ + decimal(n as nat),
    decreases n,
{
    if n >= 10 {
        append_decimal(s, n / 10);
    }
    s.append(digit_str(n % 10));
    proof {
        assert(n >= 10 ==> decimal(n as nat) == decimal((n / 10) as nat).push(digit_char((n % 10) as nat)));
    }
    assert(final(s)@ =~= old(s)@ + decimal(n as nat));
}

impl Value {
    /// Get the type of the value.
    pub fn value_type(&self) -> (r: ValueType)
        ensures
            r == value_type_of(*self),
    {
        match self {
            Value::Bool(_) => ValueType::Bool,
            Value::Int(_) => ValueType::Int,
            Value::Uint(_) => ValueType::Uint,
        }
    }

    /// Get the shader text of the value.
    pub fn to_wgsl_string(&self) -> (r: String)
        ensures
            r@ == value_text(*self),
    {
        match self {
            Value::Bool(b) => {
                if *b {
                    String::from_str("true")
                } else {
                    String::from_str("false")
                }
            },
            Value::Int(i) => {
                let mut s = String::new();
                if *i < 0 {
                    s.append("-");
                    proof {
                        reveal_strlit("-");
                    }
                    let m: u32 = (-(*i as i64)) as u32;
                    append_decimal(&mut s, m as u64);
                } else {
                    append_decimal(&mut s, *i as u64);
                }
                assert(s@ =~= value_text(*self));
                s
            },
            Value::Uint(u) => {
                let mut s = String::new();
                append_decimal(&mut s, *u as u64);
                s.append("u");
                proof {
                    reveal_strlit("u");
                }
                assert(s@ =~= value_text(*self));
                s
            },
        }
    }
}

} // verus!

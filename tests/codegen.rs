use hanabi::{
    BinaryOperator, BuiltInOperator, ExprError, Module, ShaderWriter, UnaryNumericOperator, Value,
    ValueType,
};

#[test]
fn literal_texts() {
    assert_eq!(Value::Int(3).to_wgsl_string(), "3");
    assert_eq!(Value::Int(0).to_wgsl_string(), "0");
    assert_eq!(Value::Int(-12).to_wgsl_string(), "-12");
    assert_eq!(Value::Int(i32::MIN).to_wgsl_string(), "-2147483648");
    assert_eq!(Value::Uint(7).to_wgsl_string(), "7u");
    assert_eq!(Value::Uint(u32::MAX).to_wgsl_string(), "4294967295u");
    assert_eq!(Value::Bool(true).to_wgsl_string(), "true");
    assert_eq!(Value::Bool(false).to_wgsl_string(), "false");
}

#[test]
fn built_in_texts() {
    assert_eq!(BuiltInOperator::Time.to_wgsl_string(), "sim_params.time");
    assert_eq!(BuiltInOperator::DeltaTime.to_wgsl_string(), "sim_params.delta_time");
}

#[test]
fn shared_handle_is_rendered_once() {
    let mut m = Module::new();
    let a = m.lit(Value::Int(3));
    let s = m.binary(BinaryOperator::Add, a, a);
    let mut w = ShaderWriter::new();
    assert_eq!(w.eval(&m, s).unwrap(), "(3) + (3)");
    // One rendering for the shared literal, one for the sum.
    assert_eq!(w.rendered_count(), 2);
    // A repeat visit is answered from the cache.
    assert_eq!(w.eval(&m, a).unwrap(), "3");
    assert_eq!(w.rendered_count(), 2);
}

#[test]
fn nested_expression_renders_without_folding() {
    let mut m = Module::new();
    let a = m.lit(Value::Int(3));
    let b = m.lit(Value::Int(2));
    let s = m.binary(BinaryOperator::Add, a, b);
    let t = m.builtin(BuiltInOperator::Time);
    let p = m.binary(BinaryOperator::Mul, s, t);
    let n = m.unary(UnaryNumericOperator::Abs, p);
    let mut w = ShaderWriter::new();
    assert_eq!(w.eval(&m, n).unwrap(), "abs(((3) + (2)) * (sim_params.time))");
    assert_eq!(w.rendered_count(), 6);
}

#[test]
fn property_reference_renders_by_name() {
    let mut m = Module::new();
    let offset = m.add_property("offset", ValueType::Float3);
    let h = m.prop(offset);
    assert_eq!(m.property_name(offset), "offset");
    assert_eq!(m.value_type(h), Some(ValueType::Float3));
    let mut w = ShaderWriter::new();
    assert_eq!(w.eval(&m, h).unwrap(), "properties.offset");
}

#[test]
fn handle_of_another_module_is_rejected() {
    let mut big = Module::new();
    big.lit(Value::Int(1));
    let h = big.lit(Value::Int(2));
    let small = Module::new();
    let mut w = ShaderWriter::new();
    assert!(matches!(
        w.eval(&small, h),
        Err(ExprError::InvalidExprHandleError(_))
    ));
    assert_eq!(w.rendered_count(), 0);
}

#[test]
fn value_types_of_expressions() {
    let mut m = Module::new();
    let a = m.lit(Value::Uint(1));
    let b = m.attr(hanabi::Attribute::Position);
    let c = m.binary(BinaryOperator::Add, a, a);
    assert_eq!(m.value_type(a), Some(ValueType::Uint));
    assert_eq!(m.value_type(b), Some(ValueType::Float3));
    assert_eq!(m.value_type(c), None);
}

#[test]
fn code_is_collected() {
    let mut w = ShaderWriter::new();
    w.append_code("a = 1;\n");
    w.append_code("b = 2;\n");
    assert_eq!(w.main_code(), "a = 1;\nb = 2;\n");
}

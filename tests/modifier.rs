use hanabi::{
    Attribute, ExprError, FloatingOriginModifier, Module, ModifierContext, ShaderWriter, Value,
    ValueType,
};

#[test]
fn floating_origin_update_code() {
    let mut m = Module::new();
    let offset = m.add_property("origin", ValueType::Float3);
    let modifier = FloatingOriginModifier::via_property(&mut m, offset);
    assert_eq!(modifier.context(), ModifierContext::Update);
    assert_eq!(
        modifier.attributes(),
        vec![Attribute::Position, Attribute::F32x3_0]
    );

    let mut w = ShaderWriter::new();
    modifier.apply(&mut m, &mut w).unwrap();
    let expected = format!(
        r##"
    if (any(vec3<bool>({1}.x != {2}.x, 
            {1}.y != {2}.y, 
            {1}.z != {2}.z))) {{
        // Adjust for changed offset, e.g. floating origin recentering.
        particle.{0} += {2} - {1};
        // Then store the new offset
        {1} = {2};
    }}
            "##,
        "position", "particle.f32x3_0", "properties.origin",
    );
    assert_eq!(w.main_code(), expected);
}

#[test]
fn floating_origin_with_foreign_offset_fails() {
    let mut other = Module::new();
    other.lit(Value::Int(1));
    other.lit(Value::Int(2));
    let offset = other.lit(Value::Int(3));
    let modifier = FloatingOriginModifier::new(offset);

    let mut m = Module::new();
    let mut w = ShaderWriter::new();
    let r = modifier.apply(&mut m, &mut w);
    assert!(matches!(r, Err(ExprError::InvalidExprHandleError(_))));
    assert_eq!(w.main_code(), "");
    // The stored offset attribute was still added.
    assert_eq!(m.len(), 1);
}

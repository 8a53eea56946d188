use vstd::prelude::*;

use crate::expr::{module_prefix, render, Expr, ExprError, ExprHandle, Module, PropertyHandle};
use crate::values::{attribute_name, Attribute};
use crate::writer::{cache_valid, lemma_cache_valid_prefix, ShaderWriter};

verus! {

/// Stage of the particle simulation a modifier applies to.
#[derive(Debug, Clone, Copy, PartialEq, Eq, Structural, Hash)]
pub enum ModifierContext {
    Init,
    Update,
    Render,
}

/// Update code that moves particles by the change of the offset, then
/// stores the new offset; `pos` names the position attribute, `stored` is
/// the text of the stored offset and `offset` that of the current one.
pub open spec fn floating_origin_code(pos: Seq<char>, stored: Seq<char>, offset: Seq<char>) -> Seq<
    char,
> {
    "\n    if (any(vec3<bool>("@ + stored + ".x != "@ + offset + ".x, \n            "@ + stored
        + ".y != "@ + offset + ".y, \n            "@ + stored + ".z != "@ + offset
        + ".z))) {\n        // Adjust for changed offset, e.g. floating origin recentering.\n        particle."@
        + pos + " += "@ + offset + " - "@ + stored
        + ";\n        // Then store the new offset\n        "@ + stored + " = "@ + offset
        + ";\n    }\n            "@
}

/// A modifier applying a secondary translation to all particles, as used
/// when a floating origin re-centers the world.
///
/// The offset is stored per particle in [`Attribute::F32x3_0`]; whenever the
/// offset expression changes, each particle's position moves by the change.
#[derive(Debug, Clone, Copy, PartialEq, Eq, Structural, Hash)]
pub struct FloatingOriginModifier {
    /// The translation offset to apply to all particles (a 3-vector).
    translation_offset: ExprHandle,
}

impl FloatingOriginModifier {
    /// The offset expression.
    pub closed spec fn offset(&self) -> ExprHandle {
        self.translation_offset
    }

    /// Create a new modifier from a translation offset expression.
    pub fn new(translation_offset: ExprHandle) -> (r: Self)
        ensures
            r.offset() == translation_offset,
    {
        FloatingOriginModifier { translation_offset }
    }

    /// Create a new modifier whose offset reads a property.
    pub fn via_property(module: &mut Module, property: PropertyHandle) -> (r: Self)
        requires
            property@ < old(module)@.properties.len(),
        ensures
            final(module)@.exprs == old(module)@.exprs.push(Expr::Property(property)),
            final(module)@.properties == old(module)@.properties,
            r.offset()@ == old(module)@.exprs.len(),
    {
        FloatingOriginModifier { translation_offset: module.prop(property) }
    }

    /// Get the offset expression.
    pub fn translation_offset(&self) -> (r: ExprHandle)
        ensures
            r == self.offset(),
    {
        self.translation_offset
    }

    /// The stage this modifier applies to.
    pub fn context(&self) -> (r: ModifierContext)
        ensures
            r == ModifierContext::Update,
    {
        ModifierContext::Update
    }

    /// The particle attributes this modifier needs.
    pub fn attributes(&self) -> (r: Vec<Attribute>)
        ensures
            r@ == seq![Attribute::Position, Attribute::F32x3_0],
    {
        let r = vec![Attribute::Position, Attribute::F32x3_0];
        assert(r@ =~= seq![Attribute::Position, Attribute::F32x3_0]);
        r
    }

    /// Append the update code of this modifier to the writer.
    ///
    /// The stored offset is read through a new attribute expression; fails,
    /// with the code unchanged, when the offset handle is not an expression
    /// of the module.
    pub fn apply(&self, module: &mut Module, context: &mut ShaderWriter) -> (r: Result<
        (),
        ExprError,
    >)
        requires
            cache_valid(old(context).cached(), old(module)@),
        ensures
            final(module)@.exprs == old(module)@.exprs.push(Expr::Attribute(Attribute::F32x3_0)),
            final(module)@.properties == old(module)@.properties,
            (r is Ok) == (self.offset()@ <= old(module)@.exprs.len()),
            r matches Err(e) ==> e is InvalidExprHandleError && final(context).code() == old(
                context,
            ).code(),
            r matches Ok(_) ==> {
                &&& cache_valid(final(context).cached(), final(module)@)
                &&& final(context).code() == old(context).code() + floating_origin_code(
                    attribute_name(Attribute::Position),
                    render(final(module)@, old(module)@.exprs.len()),
                    render(final(module)@, self.offset()@),
                )
            },
    {
        proof {
            use_type_invariant(&*module);
        }
        let ghost m0 = module@;
        let stored = module.attr(Attribute::F32x3_0);
        proof {
            assert(module_prefix(m0, module@)) by {
                assert forall|i: int| 0 <= i < m0.exprs.len() implies m0.exprs[i] == module@.exprs[i] by {}
            }
            lemma_cache_valid_prefix(context.cached(), m0, module@);
        }
        let stored_text = match context.eval(module, stored) {
            Ok(s) => s,
            Err(e) => return Err(e),
        };
        let offset_text = match context.eval(module, self.translation_offset) {
            Ok(s) => s,
            Err(e) => return Err(e),
        };
        let pos = Attribute::Position.name();
        let a = stored_text.as_str();
        let e = offset_text.as_str();
        let mut code = String::from_str("\n    if (any(vec3<bool>(");
        code.append(a);
        code.append(".x != ");
        code.append(e);
        code.append(".x, \n            ");
        code.append(a);
        code.append(".y != ");
        code.append(e);
        code.append(".y, \n            ");
        code.append(a);
        code.append(".z != ");
        code.append(e);
        code.append(".z))) {\n        // Adjust for changed offset, e.g. floating origin recentering.\n        particle.");
        code.append(pos);
        code.append(" += ");
        code.append(e);
        code.append(" - ");
        code.append(a);
        code.append(";\n        // Then store the new offset\n        ");
        code.append(a);
        code.append(" = ");
        code.append(e);
        code.append(";\n    }\n            ");
        assert(code@ =~= floating_origin_code(pos@, a@, e@));
        context.append_code(code.as_str());
        Ok(())
    }
}

} // verus!

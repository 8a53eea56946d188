//! Node graphs of typed operations, compiled into shared expression trees
//! and rendered to shader source text.

pub mod expr;
pub mod graph;
pub mod ids;
pub mod laws;
pub mod modifier;
pub mod node;
pub mod values;
pub mod writer;

pub use expr::{BinaryOperator, Expr, ExprError, ExprHandle, Module, PropertyHandle, UnaryNumericOperator};
pub use graph::{Graph, Slot, SlotDef, SlotDir};
pub use ids::{NodeId, SlotId};
pub use modifier::{FloatingOriginModifier, ModifierContext};
pub use node::{AddNode, AnyNode, AttributeNode, DivNode, MulNode, Node, NormalizeNode, SubNode, TimeNode};
pub use values::{Attribute, BuiltInOperator, Value, ValueType};
pub use writer::ShaderWriter;

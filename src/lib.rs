//! Solid modelling with functional representations: a shape is the set of points
//! where a scalar field over space is negative, and fields are built as expression
//! trees over the coordinates.
//!
//! Trees are hash-consed tables of expression nodes; the operators, shapes and
//! transforms build new trees from old ones; a set of variables parameterises a tree,
//! and an evaluator binds a tree to the values of such a set; trees are saved to and
//! loaded from a compact binary encoding.
//!
//! Floating-point numbers are carried as their IEEE-754 single-precision bit patterns.
pub mod codec;
pub mod error;
pub mod generators;
pub mod node;
pub mod op;
pub mod render;
pub mod scalar;
pub mod semantics;
pub mod shapes;
pub mod stdlib;
pub mod transforms;
pub mod tree;
pub mod variables;

pub use error::{Error, Result};
pub use op::Op;
pub use render::{
    BRepAlgorithm, BRepSettings, Bitmap, FlatTriangleMesh, Interval, Region2, Region3, TriangleMesh,
};
pub use stdlib::{TreeVec2, TreeVec3, Trees};
pub use node::{Node, Term};
pub use tree::{Tree, TreeFloat};
pub use variables::{Evaluator, Variables};

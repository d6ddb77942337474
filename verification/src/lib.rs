//! Build-time rewriting of the `import.meta.resources` expression family.
//!
//! A bundler emits a set of artifacts (scripts, stylesheets, ...), each with a
//! name and a kind. Generated scripts may refer to the artifact set through a
//! synthetic expression family rooted at `import.meta.resources`. This crate
//! holds the verified core of the stage that replaces those expressions with
//! literal data describing the artifacts:
//!
//! - `import.meta.resources` becomes a merged array-and-object literal,
//! - `import.meta.resources.<kind>` becomes an array of that kind's descriptors,
//! - `import.meta.resources[n]` becomes the descriptor at catalog position `n`,
//! - `import.meta.resources.<kind>[n]` becomes the descriptor at position `n`
//!   within that kind.
//!
//! An access that fails to resolve (absent kind, out-of-range or non-integer
//! index) is left verbatim, by design.

pub mod ast;
pub mod catalog;
pub mod builder;
pub mod laws;
pub mod matcher;
pub mod plugin;
pub mod rewriter;

pub use ast::{Expr, ExprView, MemberProp, MemberPropView, NumLit};
pub use catalog::MinimalResourceInfo;
pub use matcher::Classification;
pub use plugin::{FarmPluginResourcesImportMeta, Module, Resource};
pub use rewriter::ImportMetaVisitor;

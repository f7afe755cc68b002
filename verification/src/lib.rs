//! A project-scaffolding library: a template directory declares variables in a
//! definition file; each variable is resolved to a concrete value (from its
//! default, or from lines of user input), and the resolved context is handed
//! to a text-substitution engine that renders the template tree.

pub mod context;
pub mod definition;
pub mod loader;
pub mod numbers;
pub mod prompt;
pub mod raw;
pub mod render;
pub mod text;
pub mod validate;
pub mod value;

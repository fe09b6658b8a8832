//! Site-management logic of a browser UI that registers, selects and tests
//! deployment targets, keeps a short SQL history and renders query results.

pub mod text;
pub mod json;
pub mod dom;
pub mod profiles;
pub mod history;
pub mod render;
pub mod graphql;
pub mod actions;
pub mod shell;

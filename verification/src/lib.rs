pub mod buffer;
pub mod coords;
pub mod diagnostics;
pub mod document;
pub mod edit;
pub mod laws;
pub mod store;
pub mod syntax;
pub mod text;

pub mod apply;
pub mod catalog;
pub mod errors;
pub mod escape;
pub mod json;
pub mod moonshot;
pub mod mapping;
pub mod provider;
pub mod selector;

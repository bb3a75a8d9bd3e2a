//! Documentation-model generation for a dynamically-typed embedded scripting
//! engine: decodes reflection metadata, groups function overloads, synthesizes
//! display signatures, extracts named sections from doc comments, orders the
//! resulting items and assembles a recursive module tree.
pub mod custom_types;
pub mod doc_item;
pub mod error;
pub mod export;
pub mod function;
pub mod generate;
pub mod glossary;
pub mod item;
pub mod json;
pub mod module;
pub mod options;
pub mod ordering;
pub mod text;

pub use glossary::ModuleGlossary;
pub use module::Documentation;

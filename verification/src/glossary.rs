//! Glossary of every function of a module tree, rendered by an outside
//! template layer.
use vstd::prelude::*;

verus! {

/// Glossary of all functions of a module and its sub-modules.
#[derive(Debug)]
pub struct ModuleGlossary {
    /// Formatted function signatures by sub-module.
    pub content: String,
}

} // verus!

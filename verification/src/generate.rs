//! Builders configuring how a documentation tree is rendered for a markdown
//! host. The rendering itself is the concern of an outside template layer;
//! these builders only carry the chosen settings.
use vstd::prelude::*;

verus! {

/// Glossary of all functions of a module and its sub-modules.
#[derive(Debug)]
pub struct Glossary {
    /// Formatted function signatures by sub-module.
    pub content: String,
}

/// Options for building MDX documentation for the docusaurus site generator.
#[derive(Debug)]
pub struct DocusaurusOptions {
    pub slug: Option<String>,
    pub module_name: Option<String>,
}

impl Default for DocusaurusOptions {
    fn default() -> (r: Self)
        ensures
            r.slug is None,
            r.module_name is None,
    {
        DocusaurusOptions { slug: None, module_name: None }
    }
}

impl DocusaurusOptions {
    /// Format the slug in the metadata section of the generated MDX document
    /// by concatenating the `slug` parameter with the module name.
    ///
    /// For example, if the documentation for a module called `my_module` is
    /// generated with the slug `/docs/api/`, the slug set in the document
    /// will be `/docs/api/my_module`. By default the root path is used.
    pub fn with_slug(self, slug: &str) -> (r: Self)
        ensures
            r.slug is Some && r.slug->0@ == slug@,
            r.module_name == self.module_name,
    {
        DocusaurusOptions { slug: Some(String::from_str(slug)), ..self }
    }

    /// Rename the root module in the generated documentation, so that items
    /// registered under the global namespace can be split over several
    /// documents without the default root name appearing everywhere.
    ///
    /// For example, with the slug `/docs/api/` and the root module renamed
    /// `my_module`, the slug set in the document will be
    /// `/docs/api/my_module` instead of the default root module name.
    pub fn rename_root_module(self, name: &str) -> (r: Self)
        ensures
            r.module_name is Some && r.module_name->0@ == name@,
            r.slug == self.slug,
    {
        DocusaurusOptions { module_name: Some(String::from_str(name)), ..self }
    }
}

/// Create a new builder to generate documentation for docusaurus from a
/// documentation tree.
pub fn docusaurus() -> (r: DocusaurusOptions)
    ensures
        r.slug is None,
        r.module_name is None,
{
    DocusaurusOptions::default()
}

/// Options for building an MDX glossary for the docusaurus site generator.
#[derive(Debug)]
pub struct DocusaurusGlossaryOptions {
    pub slug: Option<String>,
}

impl Default for DocusaurusGlossaryOptions {
    fn default() -> (r: Self)
        ensures
            r.slug is None,
    {
        DocusaurusGlossaryOptions { slug: None }
    }
}

impl DocusaurusGlossaryOptions {
    /// Format the slug in the metadata section of the generated MDX document.
    /// By default the root glossary path is used.
    pub fn with_slug(self, slug: &str) -> (r: Self)
        ensures
            r.slug is Some && r.slug->0@ == slug@,
    {
        DocusaurusGlossaryOptions { slug: Some(String::from_str(slug)) }
    }
}

/// Create a new builder to generate a function glossary for docusaurus from a
/// documentation tree.
pub fn docusaurus_glossary() -> (r: DocusaurusGlossaryOptions)
    ensures
        r.slug is None,
{
    DocusaurusGlossaryOptions::default()
}

/// Options for building HTML documentation for the mdbook generator.
#[derive(Debug)]
pub struct MDBookOptions;

impl Default for MDBookOptions {
    fn default() -> (r: Self) {
        MDBookOptions
    }
}

/// Create a new builder to generate documentation for mdbook from a
/// documentation tree.
pub fn mdbook() -> MDBookOptions {
    MDBookOptions
}

} // verus!

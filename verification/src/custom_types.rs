//! Metadata record for a custom type registered with the scripting engine.
use vstd::prelude::*;

verus! {

/// Metadata exposed by the scripting engine for a registered custom type.
#[derive(Debug)]
pub struct CustomTypesMetadata {
    /// Real name of the type, with source-language namespaces if any.
    pub type_path: String,
    /// Simple name for the generated documentation.
    pub display_name: String,
    /// All doc comments of the type.
    pub doc_comments: Option<Vec<String>>,
}

pub ghost struct CustomTypesMetadataView {
    pub type_path: Seq<char>,
    pub display_name: Seq<char>,
    pub doc_comments: Option<Seq<Seq<char>>>,
}

impl DeepView for CustomTypesMetadata {
    type V = CustomTypesMetadataView;

    open spec fn deep_view(&self) -> CustomTypesMetadataView {
        CustomTypesMetadataView {
            type_path: self.type_path@,
            display_name: self.display_name@,
            doc_comments: self.doc_comments.deep_view(),
        }
    }
}

impl Clone for CustomTypesMetadata {
    fn clone(&self) -> (r: Self)
        ensures
            r.deep_view() == self.deep_view(),
    {
        let doc_comments: Option<Vec<String>> = match &self.doc_comments {
            Some(v) => {
                let c = v.clone();
                proof {
                    assert(c.deep_view() =~= v.deep_view());
                }
                Some(c)
            },
            None => None,
        };
        CustomTypesMetadata {
            type_path: self.type_path.clone(),
            display_name: self.display_name.clone(),
            doc_comments,
        }
    }
}

} // verus!

//! Documentation items keyed by the module builder: a function overload
//! group or a custom type, with a markdown heading id.
use crate::custom_types::{CustomTypesMetadata, CustomTypesMetadataView};
use crate::doc_item::{
    lemma_first_documented_bounds, spec_directive_value, spec_first_documented,
    spec_format_comments, spec_remove_test_code, spec_valid_index, DocItem,
};
use crate::export::{ItemsOrder, Options};
use crate::function::{Metadata, MetadataView};
use crate::module::Error;
use crate::text::{dec_value, starts_with_pat};
use vstd::prelude::*;

verus! {

/// Generic representation of documentation for a specific item: a function
/// overload group or a custom type.
#[derive(Debug)]
pub enum Item {
    Function { root_metadata: Metadata, metadata: Vec<Metadata>, name: String, index: usize },
    CustomType { metadata: CustomTypesMetadata, index: usize },
}

pub ghost enum ItemView {
    Function {
        root_metadata: MetadataView,
        metadata: Seq<MetadataView>,
        name: Seq<char>,
        index: usize,
    },
    CustomType { metadata: CustomTypesMetadataView, index: usize },
}

impl DeepView for Item {
    type V = ItemView;

    open spec fn deep_view(&self) -> ItemView {
        match self {
            Item::Function { root_metadata, metadata, name, index } => ItemView::Function {
                root_metadata: root_metadata.deep_view(),
                metadata: metadata.deep_view(),
                name: name@,
                index: *index,
            },
            Item::CustomType { metadata, index } => ItemView::CustomType {
                metadata: metadata.deep_view(),
                index: *index,
            },
        }
    }
}

impl Clone for Item {
    fn clone(&self) -> (r: Self)
        ensures
            r.deep_view() == self.deep_view(),
    {
        match self {
            Item::Function { root_metadata, metadata, name, index } => {
                let cm = metadata.clone();
                proof {
                    assert(cm.deep_view() =~= metadata.deep_view());
                }
                Item::Function {
                    root_metadata: root_metadata.clone(),
                    metadata: cm,
                    name: name.clone(),
                    index: *index,
                }
            },
            Item::CustomType { metadata, index } => Item::CustomType {
                metadata: metadata.clone(),
                index: *index,
            },
        }
    }
}

/// The explicit order index of the item's view.
pub open spec fn spec_item_index(d: ItemView) -> usize {
    match d {
        ItemView::Function { index, .. } => index,
        ItemView::CustomType { index, .. } => index,
    }
}

/// The display name of the item's view.
pub open spec fn spec_item_name(d: ItemView) -> Seq<char> {
    match d {
        ItemView::Function { name, .. } => name,
        ItemView::CustomType { metadata, .. } => metadata.display_name,
    }
}

/// The heading prefix of the item's view: the kind tag with the separator
/// characters removed, or `type` for a custom type.
pub open spec fn spec_heading_prefix(d: ItemView) -> Seq<char> {
    match d {
        ItemView::Function { root_metadata, .. } => {
            match crate::function::spec_fn_definition(root_metadata) {
                crate::function::DefinitionView::Function { .. } => "fn"@,
                crate::function::DefinitionView::Operator { .. } => "op"@,
                crate::function::DefinitionView::Get { .. } => "getset"@,
                crate::function::DefinitionView::Setter { .. } => "getset"@,
                crate::function::DefinitionView::IndexGet { .. } => "indexgetset"@,
                crate::function::DefinitionView::IndexSet { .. } => "indexgetset"@,
            }
        },
        ItemView::CustomType { .. } => "type"@,
    }
}

/// The markdown heading id of the item's view: its kind prefix, a dash and
/// its display name.
pub open spec fn spec_heading_id(d: ItemView) -> Seq<char> {
    spec_heading_prefix(d) + "-"@ + spec_item_name(d)
}

/// The newline-joined synthesized signatures of the item's overloads.
pub open spec fn spec_item_signatures(d: ItemView) -> Seq<char> {
    match d {
        ItemView::Function { metadata, .. } => crate::text::spec_join_sep(
            metadata.map_values(
                |m: MetadataView| crate::function::spec_display_definition(
                    crate::function::spec_fn_definition(m),
                ),
            ),
            "\n"@,
        ),
        ItemView::CustomType { .. } => Seq::empty(),
    }
}

/// The comment lines an item's rendered documentation is drawn from.
pub open spec fn spec_item_comments(d: ItemView) -> Seq<Seq<char>> {
    match d {
        ItemView::Function { root_metadata, .. } => match root_metadata.doc_comments {
            Some(dc) => dc,
            None => Seq::empty(),
        },
        ItemView::CustomType { metadata, .. } => match metadata.doc_comments {
            Some(dc) => dc,
            None => Seq::empty(),
        },
    }
}

/// The named sections of the item's cleaned documentation.
pub open spec fn spec_item_sections(d: ItemView) -> Seq<crate::doc_item::SectionView> {
    crate::doc_item::spec_extract_sections(spec_format_comments(spec_item_comments(d)))
}

/// The ensured shape of a freshly built function item.
pub open spec fn spec_function_item(
    d: ItemView,
    ms: Seq<MetadataView>,
    name: Seq<char>,
    index: usize,
) -> bool {
    match d {
        ItemView::Function { root_metadata, metadata, name: n, index: ix } => {
            &&& spec_first_documented(ms) is Some
            &&& root_metadata == ms[spec_first_documented(ms)->Some_0]
            &&& metadata == ms
            &&& n == name
            &&& ix == index
        },
        ItemView::CustomType { .. } => false,
    }
}

impl Item {
    /// Build the documentation item of one function overload group. An
    /// anonymous or wholly undocumented group yields no item. The first
    /// overload that carries comments becomes the root documentation source.
    /// In by-index mode the root's ordering directive gives the item's index;
    /// a retained item without one, or with a malformed one, is an error
    /// naming the item.
    pub fn new_function(metadata: &Vec<Metadata>, name: &str, options: &Options) -> (r: Result<
        Option<Item>,
        Error,
    >)
        ensures
            ({
                let ms = metadata.deep_view();
                if "anon$"@.is_prefix_of(name@) || (spec_first_documented(ms) is None) {
                    r is Ok && r->Ok_0 is None
                } else {
                    let root = ms[spec_first_documented(ms)->Some_0];
                    match options.items_order {
                        ItemsOrder::Alphabetical => r is Ok && r->Ok_0 is Some
                            && spec_function_item(r->Ok_0->Some_0.deep_view(), ms, name@, 0),
                        ItemsOrder::ByIndex => match spec_directive_value(
                            root.doc_comments->Some_0,
                        ) {
                            None => r is Err && r->Err_0 is ParseOrderMetadata,
                            Some(v) => {
                                if spec_valid_index(v) {
                                    &&& r is Ok
                                    &&& r->Ok_0 is Some
                                    &&& spec_function_item(
                                        r->Ok_0->Some_0.deep_view(),
                                        ms,
                                        name@,
                                        dec_value(v) as usize,
                                    )
                                } else {
                                    r is Err && r->Err_0 is ParseOrderMetadata
                                }
                            },
                        },
                    }
                }
            }),
    {
        match DocItem::new_function(metadata, name, options) {
            Ok(None) => Ok(None),
            Ok(Some(DocItem::Function { root_metadata, metadata, name, index })) => Ok(
                Some(Item::Function { root_metadata, metadata, name, index }),
            ),
            Ok(Some(DocItem::CustomType { .. })) => {
                proof {
                    assert(false);
                }
                Ok(None)
            },
            Err(e) => Err(Error::ParseOrderMetadata(e.message().clone())),
        }
    }

    /// Build the documentation item of one custom type. A type without doc
    /// comments yields no item. In by-index mode its ordering directive gives
    /// the item's index; a retained type without one, or with a malformed
    /// one, is an error naming the type.
    pub fn new_custom_type(metadata: CustomTypesMetadata, options: &Options) -> (r: Result<
        Option<Item>,
        Error,
    >)
        ensures
            ({
                let m = metadata.deep_view();
                if m.doc_comments is None {
                    r is Ok && r->Ok_0 is None
                } else {
                    match options.items_order {
                        ItemsOrder::Alphabetical => r is Ok && r->Ok_0 is Some
                            && (r->Ok_0->Some_0.deep_view() == ItemView::CustomType {
                            metadata: m,
                            index: 0,
                        }),
                        ItemsOrder::ByIndex => match spec_directive_value(m.doc_comments->Some_0) {
                            None => r is Err && r->Err_0 is ParseOrderMetadata,
                            Some(v) => {
                                if spec_valid_index(v) {
                                    &&& r is Ok
                                    &&& r->Ok_0 is Some
                                    &&& (r->Ok_0->Some_0.deep_view() == ItemView::CustomType {
                                        metadata: m,
                                        index: dec_value(v) as usize,
                                    })
                                } else {
                                    r is Err && r->Err_0 is ParseOrderMetadata
                                }
                            },
                        },
                    }
                }
            }),
    {
        match DocItem::new_custom_type(metadata, options) {
            Ok(None) => Ok(None),
            Ok(Some(DocItem::CustomType { metadata, index })) => Ok(
                Some(Item::CustomType { metadata, index }),
            ),
            Ok(Some(DocItem::Function { .. })) => {
                proof {
                    assert(false);
                }
                Ok(None)
            },
            Err(e) => Err(Error::ParseOrderMetadata(e.message().clone())),
        }
    }

    /// The order index of the item, taken from the ordering directive in
    /// by-index mode and 0 otherwise.
    pub fn index(&self) -> (r: usize)
        ensures
            r == spec_item_index(self.deep_view()),
    {
        match self {
            Item::CustomType { index, .. } => *index,
            Item::Function { index, .. } => *index,
        }
    }

    /// The display name of the item.
    pub fn name(&self) -> (r: &str)
        ensures
            r@ == spec_item_name(self.deep_view()),
    {
        match self {
            Item::CustomType { metadata, .. } => metadata.display_name.as_str(),
            Item::Function { name, .. } => name.as_str(),
        }
    }

    /// A heading id for markdown, from the kind and name of the item.
    pub fn heading_id(&self) -> (r: String)
        ensures
            r@ == spec_heading_id(self.deep_view()),
    {
        let mut out: String;
        match self {
            Item::Function { root_metadata, .. } => {
                let def = root_metadata.generate_function_definition();
                out = match def {
                    crate::function::Definition::Function { .. } => String::from_str("fn"),
                    crate::function::Definition::Operator { .. } => String::from_str("op"),
                    crate::function::Definition::Get { .. } => String::from_str("getset"),
                    crate::function::Definition::Setter { .. } => String::from_str("getset"),
                    crate::function::Definition::IndexGet { .. } => String::from_str("indexgetset"),
                    crate::function::Definition::IndexSet { .. } => String::from_str("indexgetset"),
                };
            },
            Item::CustomType { .. } => {
                out = String::from_str("type");
            },
        }
        out.append("-");
        out.append(self.name());
        out
    }

    /// The synthesized signatures of all overloads of the item, joined one
    /// per line; empty for a custom type.
    pub fn signatures(&self) -> (r: String)
        ensures
            r@ == spec_item_signatures(self.deep_view()),
    {
        match self {
            Item::Function { metadata, .. } => {
                let mut shown: Vec<String> = Vec::new();
                let mut i: usize = 0;
                while i < metadata.len()
                    invariant
                        0 <= i <= metadata.len(),
                        metadata.deep_view().len() == metadata.len(),
                        shown.deep_view().len() == i,
                        forall|k: int|
                            0 <= k < i ==> shown.deep_view()[k]
                                == crate::function::spec_display_definition(
                                crate::function::spec_fn_definition(
                                    #[trigger] metadata.deep_view()[k],
                                ),
                            ),
                    decreases metadata.len() - i,
                {
                    let ghost prev = shown.deep_view();
                    let line = metadata[i].generate_function_definition().display();
                    let ghost lv = line@;
                    shown.push(line);
                    proof {
                        assert(shown.deep_view() =~= prev.push(lv));
                    }
                    i += 1;
                }
                proof {
                    assert(shown.deep_view() =~= metadata.deep_view().map_values(
                        |m: MetadataView| crate::function::spec_display_definition(
                            crate::function::spec_fn_definition(m),
                        ),
                    ));
                }
                crate::text::join_with(&shown, "\n")
            },
            Item::CustomType { .. } => String::new(),
        }
    }

    /// The named sections of the item's cleaned documentation: the root
    /// comments with directive lines, marker tokens and hidden test code
    /// removed, split at heading lines outside code fences.
    pub fn sections(&self) -> (r: Vec<crate::doc_item::Section>)
        ensures
            r.deep_view() == spec_item_sections(self.deep_view()),
    {
        let cleaned: String = match self {
            Item::Function { root_metadata, .. } => {
                match &root_metadata.doc_comments {
                    Some(dc) => DocItem::format_comments(dc),
                    None => {
                        let empty: Vec<String> = Vec::new();
                        proof {
                            assert(empty.deep_view() =~= Seq::<Seq<char>>::empty());
                        }
                        DocItem::format_comments(&empty)
                    },
                }
            },
            Item::CustomType { metadata, .. } => {
                match &metadata.doc_comments {
                    Some(dc) => DocItem::format_comments(dc),
                    None => {
                        let empty: Vec<String> = Vec::new();
                        proof {
                            assert(empty.deep_view() =~= Seq::<Seq<char>>::empty());
                        }
                        DocItem::format_comments(&empty)
                    },
                }
            },
        };
        crate::doc_item::Section::extract_sections(cleaned.as_str())
    }

    /// Format an item's doc comments into readable markdown.
    pub fn format_comments(doc_comments: &Vec<String>) -> (r: String)
        ensures
            r@ == spec_format_comments(doc_comments.deep_view()),
    {
        DocItem::format_comments(doc_comments)
    }

    /// Remove this library's own directive comments from each comment string.
    pub fn remove_extra_tokens(dc: Vec<String>) -> (r: Vec<String>)
        ensures
            r.deep_view() == crate::doc_item::spec_remove_extra_tokens(dc.deep_view()),
    {
        DocItem::remove_extra_tokens(dc)
    }

    /// Remove the verbatim doc-comment marker tokens.
    pub fn fmt_doc_comments(dc: &str) -> (r: String)
        ensures
            r@ == crate::doc_item::spec_fmt_doc_comments(dc@),
    {
        DocItem::fmt_doc_comments(String::from_str(dc))
    }

    /// Remove lines of sample code that start with the heading marker inside
    /// a fenced code block.
    pub fn remove_test_code(doc_comments: &str) -> (r: String)
        ensures
            r@ == spec_remove_test_code(doc_comments@),
    {
        DocItem::remove_test_code(doc_comments)
    }
}

} // verus!

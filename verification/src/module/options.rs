//! Configuration of a documentation build aimed at a particular markdown
//! processor, and the ordering of documentation items.
use crate::doc_item::{spec_item_index, spec_item_name, DocItem, DocItemView};
use crate::ordering::{
    insert_pos, le_total, le_trans, lemma_insert_le_at, lemma_sort_le_ensures, sort_le, sorted_le,
};
use crate::text::{lemma_lex_antisym, lemma_lex_total, lemma_lex_trans, lex_le, str_lex_le};
use vstd::prelude::*;

verus! {

/// Types of markdown processor where the generated documentation will be
/// hosted.
#[derive(Debug)]
pub enum MarkdownProcessor {
    MdBook,
    Docusaurus,
}

impl Clone for MarkdownProcessor {
    fn clone(&self) -> (r: Self)
        ensures
            r == *self,
    {
        match self {
            MarkdownProcessor::MdBook => MarkdownProcessor::MdBook,
            MarkdownProcessor::Docusaurus => MarkdownProcessor::Docusaurus,
        }
    }
}

impl Default for MarkdownProcessor {
    fn default() -> (r: Self)
        ensures
            r is Docusaurus,
    {
        MarkdownProcessor::Docusaurus
    }
}

/// Select in which order the documentation items of a module are displayed.
#[derive(Debug)]
pub enum ItemsOrder {
    /// Display items in alphabetical order of their display name.
    Alphabetical,
    /// Display items by the explicit index given by a directive line in each
    /// documented item's comments.
    ByIndex,
}

impl Clone for ItemsOrder {
    fn clone(&self) -> (r: Self)
        ensures
            r == *self,
    {
        match self {
            ItemsOrder::Alphabetical => ItemsOrder::Alphabetical,
            ItemsOrder::ByIndex => ItemsOrder::ByIndex,
        }
    }
}

impl Default for ItemsOrder {
    fn default() -> (r: Self)
        ensures
            r is Alphabetical,
    {
        ItemsOrder::Alphabetical
    }
}

/// Alphabetical comparison of items, by display name.
pub open spec fn doc_item_alpha_le() -> spec_fn(DocItemView, DocItemView) -> bool {
    |a: DocItemView, b: DocItemView| lex_le(spec_item_name(a), spec_item_name(b))
}

/// Comparison of items by explicit order index.
pub open spec fn doc_item_index_le() -> spec_fn(DocItemView, DocItemView) -> bool {
    |a: DocItemView, b: DocItemView| spec_item_index(a) <= spec_item_index(b)
}

/// Both item comparisons are total and transitive.
pub proof fn lemma_doc_item_le_props()
    ensures
        le_total(doc_item_alpha_le()),
        le_trans(doc_item_alpha_le()),
        le_total(doc_item_index_le()),
        le_trans(doc_item_index_le()),
{
    assert forall|a: DocItemView, b: DocItemView| #[trigger]
        doc_item_alpha_le()(a, b) || #[trigger] doc_item_alpha_le()(b, a) by {
        lemma_lex_total(spec_item_name(a), spec_item_name(b));
    }
    assert forall|a: DocItemView, b: DocItemView, c: DocItemView| #[trigger]
        doc_item_alpha_le()(a, b) && #[trigger] doc_item_alpha_le()(b, c) implies doc_item_alpha_le()(
        a,
        c,
    ) by {
        lemma_lex_trans(spec_item_name(a), spec_item_name(b), spec_item_name(c));
    }
}

impl ItemsOrder {
    /// The comparison this ordering mode sorts by.
    pub open spec fn spec_le(&self) -> spec_fn(DocItemView, DocItemView) -> bool {
        match self {
            ItemsOrder::Alphabetical => doc_item_alpha_le(),
            ItemsOrder::ByIndex => doc_item_index_le(),
        }
    }

    /// Whether `a` comes at or before `b` under this ordering mode.
    fn le_items(&self, a: &DocItem, b: &DocItem) -> (r: bool)
        ensures
            r == self.spec_le()(a.deep_view(), b.deep_view()),
    {
        match self {
            ItemsOrder::Alphabetical => str_lex_le(a.name(), b.name()),
            ItemsOrder::ByIndex => a.index() <= b.index(),
        }
    }

    /// An ordered position for `x` in the ordered `out`, scanning from the
    /// end so that `x` lands after every element at most `x`.
    fn find_pos(&self, out: &Vec<DocItem>, x: &DocItem) -> (j: usize)
        ensures
            j <= out.len(),
            insert_pos(self.spec_le(), x.deep_view(), out.deep_view(), j as int),
    {
        let mut j: usize = out.len();
        loop
            invariant
                0 <= j <= out.len(),
                out.deep_view().len() == out.len(),
                forall|k: int|
                    j <= k < out.len() ==> !self.spec_le()(
                        #[trigger] out.deep_view()[k],
                        x.deep_view(),
                    ),
            decreases j,
        {
            if j == 0 {
                return 0;
            }
            if self.le_items(&out[j - 1], x) {
                return j;
            }
            j -= 1;
        }
    }

    /// Order the documentation items following this mode: alphabetically by
    /// display name, or by the explicit directive index. The sort is stable:
    /// items that compare equal keep their discovery order.
    pub fn order_items(&self, items: Vec<DocItem>) -> (r: Vec<DocItem>)
        ensures
            r.deep_view() == sort_le(self.spec_le(), items.deep_view()),
    {
        let ghost le = self.spec_le();
        let ghost ms = items.deep_view();
        proof {
            lemma_doc_item_le_props();
            assert(ms.take(0) =~= Seq::<DocItemView>::empty());
        }
        let mut out: Vec<DocItem> = Vec::new();
        let mut i: usize = 0;
        while i < items.len()
            invariant
                ms == items.deep_view(),
                ms.len() == items.len(),
                0 <= i <= ms.len(),
                le == self.spec_le(),
                le_total(le),
                le_trans(le),
                out.deep_view() == sort_le(le, ms.take(i as int)),
            decreases ms.len() - i,
        {
            let x = items[i].clone();
            proof {
                lemma_sort_le_ensures(le, ms.take(i as int));
                assert(sorted_le(le, out.deep_view()));
            }
            let pos = self.find_pos(&out, &x);
            let ghost prev = out.deep_view();
            proof {
                lemma_insert_le_at(le, x.deep_view(), prev, pos as int);
            }
            out.insert(pos, x);
            proof {
                assert(out.deep_view() =~= prev.insert(pos as int, x.deep_view()));
                assert(ms.take(i + 1).drop_last() =~= ms.take(i as int));
                assert(ms.take(i + 1).last() == ms[i as int]);
                assert(x.deep_view() == ms[i as int]);
                assert(out.deep_view() == crate::ordering::insert_le(le, ms[i as int], prev));
            }
            i += 1;
        }
        proof {
            assert(ms.take(ms.len() as int) =~= ms);
        }
        out
    }
}

/// Options to format the display of comment sections marked with the heading
/// tag.
#[derive(Debug)]
pub enum SectionFormat {
    /// Display sections as source-language doc comments do, with plain
    /// markdown titles.
    Rust,
    /// Display sections as tabs that wrap the underlying documentation.
    Tabs,
}

impl Clone for SectionFormat {
    fn clone(&self) -> (r: Self)
        ensures
            r == *self,
    {
        match self {
            SectionFormat::Rust => SectionFormat::Rust,
            SectionFormat::Tabs => SectionFormat::Tabs,
        }
    }
}

impl Default for SectionFormat {
    fn default() -> (r: Self)
        ensures
            r is Rust,
    {
        SectionFormat::Rust
    }
}

/// Options to configure documentation generation.
#[derive(Debug)]
pub struct Options {
    pub items_order: ItemsOrder,
    pub sections_format: SectionFormat,
    pub include_standard_packages: bool,
    pub markdown_processor: MarkdownProcessor,
}

impl Default for Options {
    fn default() -> (r: Self)
        ensures
            r.items_order is Alphabetical,
            r.sections_format is Rust,
            !r.include_standard_packages,
            r.markdown_processor is Docusaurus,
    {
        Options {
            items_order: ItemsOrder::Alphabetical,
            sections_format: SectionFormat::Rust,
            include_standard_packages: false,
            markdown_processor: MarkdownProcessor::Docusaurus,
        }
    }
}

/// Create new options used to configure documentation generation.
pub fn options() -> (r: Options)
    ensures
        r.items_order is Alphabetical,
        r.sections_format is Rust,
        !r.include_standard_packages,
        r.markdown_processor is Docusaurus,
{
    Options::default()
}

impl Options {
    /// Include the standard package functions and modules documentation in
    /// the generated documentation markdown.
    pub fn include_standard_packages(self, include_standard_packages: bool) -> (r: Self)
        ensures
            r.include_standard_packages == include_standard_packages,
            r.items_order == self.items_order,
            r.sections_format == self.sections_format,
            r.markdown_processor == self.markdown_processor,
    {
        Options { include_standard_packages, ..self }
    }

    /// Order documentation items in a specific way.
    pub fn order_items_with(self, items_order: ItemsOrder) -> (r: Self)
        ensures
            r.items_order == items_order,
            r.sections_format == self.sections_format,
            r.include_standard_packages == self.include_standard_packages,
            r.markdown_processor == self.markdown_processor,
    {
        Options { items_order, ..self }
    }

    /// Format doc-comment sections, markdown that starts with the heading
    /// character, with a special format.
    pub fn format_sections_with(self, sections_format: SectionFormat) -> (r: Self)
        ensures
            r.sections_format == sections_format,
            r.items_order == self.items_order,
            r.include_standard_packages == self.include_standard_packages,
            r.markdown_processor == self.markdown_processor,
    {
        Options { sections_format, ..self }
    }

    /// Generate markdown code compatible with a specific markdown processor.
    pub fn for_markdown_processor(self, markdown_processor: MarkdownProcessor) -> (r: Self)
        ensures
            r.markdown_processor == markdown_processor,
            r.items_order == self.items_order,
            r.sections_format == self.sections_format,
            r.include_standard_packages == self.include_standard_packages,
    {
        Options { markdown_processor, ..self }
    }
}

} // verus!

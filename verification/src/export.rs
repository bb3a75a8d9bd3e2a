//! Configuration of a documentation build: which items to include, how to
//! order them and how to format comment sections.
use crate::item::{spec_item_index, spec_item_name, Item, ItemView};
use crate::ordering::{
    insert_pos, le_total, le_trans, lemma_insert_le_at, lemma_sort_le_ensures, sort_le, sorted_le,
};
use crate::text::{lemma_lex_antisym, lemma_lex_total, lemma_lex_trans, lex_le, str_lex_le};
use vstd::prelude::*;

verus! {

/// The directive line marker that carries an item's explicit order index.
pub open spec fn spec_index_pattern() -> Seq<char> {
    "# rhai-autodocs:index:"@
}

/// The directive line marker, e.g. `# rhai-autodocs:index:3` gives index 3.
pub fn index_pattern() -> (r: &'static str)
    ensures
        r@ == spec_index_pattern(),
        r@.len() > 0,
{
    proof {
        reveal_strlit("# rhai-autodocs:index:");
    }
    "# rhai-autodocs:index:"
}

/// Select in which order the documentation items of a module are displayed.
#[derive(Debug)]
pub enum ItemsOrder {
    /// Display items in alphabetical order of their display name.
    Alphabetical,
    /// Display items by the explicit index given by a directive line of the
    /// form `# rhai-autodocs:index:<number>` in each documented item's
    /// comments; the line is stripped from the rendered output.
    ByIndex,
}

impl Clone for ItemsOrder {
    fn clone(&self) -> (r: Self)
        ensures
            r == *self,
    {
        match self {
            ItemsOrder::Alphabetical => ItemsOrder::Alphabetical,
            ItemsOrder::ByIndex => ItemsOrder::ByIndex,
        }
    }
}

impl Default for ItemsOrder {
    fn default() -> (r: Self)
        ensures
            r is Alphabetical,
    {
        ItemsOrder::Alphabetical
    }
}

/// Alphabetical comparison of items, by display name.
pub open spec fn item_alpha_le() -> spec_fn(ItemView, ItemView) -> bool {
    |a: ItemView, b: ItemView| lex_le(spec_item_name(a), spec_item_name(b))
}

/// Comparison of items by explicit order index.
pub open spec fn item_index_le() -> spec_fn(ItemView, ItemView) -> bool {
    |a: ItemView, b: ItemView| spec_item_index(a) <= spec_item_index(b)
}

/// Both item comparisons are total and transitive.
pub proof fn lemma_item_le_props()
    ensures
        le_total(item_alpha_le()),
        le_trans(item_alpha_le()),
        le_total(item_index_le()),
        le_trans(item_index_le()),
{
    assert forall|a: ItemView, b: ItemView| #[trigger]
        item_alpha_le()(a, b) || #[trigger] item_alpha_le()(b, a) by {
        lemma_lex_total(spec_item_name(a), spec_item_name(b));
    }
    assert forall|a: ItemView, b: ItemView, c: ItemView| #[trigger]
        item_alpha_le()(a, b) && #[trigger] item_alpha_le()(b, c) implies item_alpha_le()(
        a,
        c,
    ) by {
        lemma_lex_trans(spec_item_name(a), spec_item_name(b), spec_item_name(c));
    }
}

impl ItemsOrder {
    /// The comparison this ordering mode sorts by.
    pub open spec fn spec_le(&self) -> spec_fn(ItemView, ItemView) -> bool {
        match self {
            ItemsOrder::Alphabetical => item_alpha_le(),
            ItemsOrder::ByIndex => item_index_le(),
        }
    }

    /// Whether `a` comes at or before `b` under this ordering mode.
    fn le_items(&self, a: &Item, b: &Item) -> (r: bool)
        ensures
            r == self.spec_le()(a.deep_view(), b.deep_view()),
    {
        match self {
            ItemsOrder::Alphabetical => str_lex_le(a.name(), b.name()),
            ItemsOrder::ByIndex => a.index() <= b.index(),
        }
    }

    /// An ordered position for `x` in the ordered `out`, scanning from the
    /// end so that `x` lands after every element at most `x`.
    fn find_pos(&self, out: &Vec<Item>, x: &Item) -> (j: usize)
        ensures
            j <= out.len(),
            insert_pos(self.spec_le(), x.deep_view(), out.deep_view(), j as int),
    {
        let mut j: usize = out.len();
        loop
            invariant
                0 <= j <= out.len(),
                out.deep_view().len() == out.len(),
                forall|k: int|
                    j <= k < out.len() ==> !self.spec_le()(
                        #[trigger] out.deep_view()[k],
                        x.deep_view(),
                    ),
            decreases j,
        {
            if j == 0 {
                return 0;
            }
            if self.le_items(&out[j - 1], x) {
                return j;
            }
            j -= 1;
        }
    }

    /// Order the documentation items following this mode: alphabetically by
    /// display name, or by the explicit directive index. The sort is stable:
    /// items that compare equal keep their discovery order.
    pub fn order_items(&self, items: Vec<Item>) -> (r: Vec<Item>)
        ensures
            r.deep_view() == sort_le(self.spec_le(), items.deep_view()),
    {
        let ghost le = self.spec_le();
        let ghost ms = items.deep_view();
        proof {
            lemma_item_le_props();
            assert(ms.take(0) =~= Seq::<ItemView>::empty());
        }
        let mut out: Vec<Item> = Vec::new();
        let mut i: usize = 0;
        while i < items.len()
            invariant
                ms == items.deep_view(),
                ms.len() == items.len(),
                0 <= i <= ms.len(),
                le == self.spec_le(),
                le_total(le),
                le_trans(le),
                out.deep_view() == sort_le(le, ms.take(i as int)),
            decreases ms.len() - i,
        {
            let x = items[i].clone();
            proof {
                lemma_sort_le_ensures(le, ms.take(i as int));
                assert(sorted_le(le, out.deep_view()));
            }
            let pos = self.find_pos(&out, &x);
            let ghost prev = out.deep_view();
            proof {
                lemma_insert_le_at(le, x.deep_view(), prev, pos as int);
            }
            out.insert(pos, x);
            proof {
                assert(out.deep_view() =~= prev.insert(pos as int, x.deep_view()));
                assert(ms.take(i + 1).drop_last() =~= ms.take(i as int));
                assert(ms.take(i + 1).last() == ms[i as int]);
                assert(x.deep_view() == ms[i as int]);
                assert(out.deep_view() == crate::ordering::insert_le(le, ms[i as int], prev));
            }
            i += 1;
        }
        proof {
            assert(ms.take(ms.len() as int) =~= ms);
        }
        out
    }
}

/// Alphabetical ordering sorts the items by display name: the result is a
/// permutation of the input and is ordered by name.
pub proof fn lemma_alphabetical_order_sorted(items: Seq<ItemView>)
    ensures
        sort_le(item_alpha_le(), items).len() == items.len(),
        sort_le(item_alpha_le(), items).to_multiset() == items.to_multiset(),
        sorted_le(item_alpha_le(), sort_le(item_alpha_le(), items)),
{
    lemma_item_le_props();
    lemma_sort_le_ensures(item_alpha_le(), items);
}

/// Ties are resolved by discovery order: for any one display name, the items
/// that carry it stand in the sorted output exactly as they stood in the
/// input.
pub proof fn lemma_alphabetical_order_stable(items: Seq<ItemView>, name: Seq<char>)
    ensures
        sort_le(item_alpha_le(), items).filter(|x: ItemView| spec_item_name(x) == name)
            == items.filter(|x: ItemView| spec_item_name(x) == name),
{
    lemma_item_le_props();
    let p = |x: ItemView| spec_item_name(x) == name;
    assert forall|a: ItemView, b: ItemView| #[trigger] p(a) && #[trigger] p(b) implies item_alpha_le()(
        a,
        b,
    ) && item_alpha_le()(b, a) by {
        lemma_lex_total(name, name);
    }
    crate::ordering::lemma_sort_le_stable(item_alpha_le(), items, p);
}

/// Re-running alphabetical ordering on a permuted but otherwise identical
/// input yields the same sorted output, for inputs whose display names are
/// pairwise distinct.
pub proof fn lemma_alphabetical_order_permutation_invariant(s: Seq<ItemView>, t: Seq<ItemView>)
    requires
        s.to_multiset() == t.to_multiset(),
        forall|i: int, j: int|
            0 <= i < j < s.len() ==> spec_item_name(s[i]) != spec_item_name(s[j]),
    ensures
        sort_le(item_alpha_le(), s) == sort_le(item_alpha_le(), t),
{
    broadcast use vstd::seq_lib::group_to_multiset_ensures;

    lemma_item_le_props();
    lemma_sort_le_ensures(item_alpha_le(), s);
    lemma_sort_le_ensures(item_alpha_le(), t);
    assert forall|x: ItemView, y: ItemView|
        sort_le(item_alpha_le(), s).to_multiset().contains(x) && sort_le(
            item_alpha_le(),
            s,
        ).to_multiset().contains(y) && #[trigger] item_alpha_le()(x, y)
            && #[trigger] item_alpha_le()(y, x) implies x == y by {
        lemma_lex_antisym(spec_item_name(x), spec_item_name(y));
        assert(s.contains(x));
        assert(s.contains(y));
        let ix = choose|ix: int| 0 <= ix < s.len() && s[ix] == x;
        let iy = choose|iy: int| 0 <= iy < s.len() && s[iy] == y;
        if ix < iy {
            assert(spec_item_name(s[ix]) != spec_item_name(s[iy]));
        } else if iy < ix {
            assert(spec_item_name(s[iy]) != spec_item_name(s[ix]));
        }
    }
    crate::ordering::lemma_sorted_unique(
        item_alpha_le(),
        sort_le(item_alpha_le(), s),
        sort_le(item_alpha_le(), t),
    );
}

/// Options to format the display of comment sections marked with the heading
/// tag.
#[derive(Debug)]
pub enum SectionFormat {
    /// Display sections as source-language doc comments do, with plain
    /// markdown titles.
    Rust,
    /// Display sections as tabs that wrap the underlying documentation.
    Tabs,
}

impl Clone for SectionFormat {
    fn clone(&self) -> (r: Self)
        ensures
            r == *self,
    {
        match self {
            SectionFormat::Rust => SectionFormat::Rust,
            SectionFormat::Tabs => SectionFormat::Tabs,
        }
    }
}

impl Default for SectionFormat {
    fn default() -> (r: Self)
        ensures
            r is Rust,
    {
        SectionFormat::Rust
    }
}

/// Options to configure documentation generation.
#[derive(Debug)]
pub struct Options {
    pub items_order: ItemsOrder,
    pub sections_format: SectionFormat,
    pub include_standard_packages: bool,
}

impl Default for Options {
    fn default() -> (r: Self)
        ensures
            r.items_order is Alphabetical,
            r.sections_format is Rust,
            !r.include_standard_packages,
    {
        Options {
            items_order: ItemsOrder::Alphabetical,
            sections_format: SectionFormat::Rust,
            include_standard_packages: false,
        }
    }
}

/// Create new options used to configure documentation generation.
pub fn options() -> (r: Options)
    ensures
        r.items_order is Alphabetical,
        r.sections_format is Rust,
        !r.include_standard_packages,
{
    Options::default()
}

impl Options {
    /// Include the standard package functions and modules documentation in
    /// the generated documentation markdown.
    pub fn include_standard_packages(self, include_standard_packages: bool) -> (r: Self)
        ensures
            r.include_standard_packages == include_standard_packages,
            r.items_order == self.items_order,
            r.sections_format == self.sections_format,
    {
        Options { include_standard_packages, ..self }
    }

    /// Order documentation items in a specific way.
    pub fn order_items_with(self, items_order: ItemsOrder) -> (r: Self)
        ensures
            r.items_order == items_order,
            r.sections_format == self.sections_format,
            r.include_standard_packages == self.include_standard_packages,
    {
        Options { items_order, ..self }
    }

    /// Format doc-comment sections, markdown that starts with the heading
    /// character, with a special format.
    pub fn format_sections_with(self, sections_format: SectionFormat) -> (r: Self)
        ensures
            r.sections_format == sections_format,
            r.items_order == self.items_order,
            r.include_standard_packages == self.include_standard_packages,
    {
        Options { sections_format, ..self }
    }

    /// Generate documentation from an engine instance. Make sure every
    /// function, operator, plugin and custom type is registered inside it.
    /// Whatever metadata text the engine hands back, the result is exactly
    /// its parse, decode and build, with the root module named `global`.
    pub fn export(self, engine: &rhai::Engine) -> (r: Result<
        crate::module::Documentation,
        crate::module::Error,
    >)
        ensures
            r is Ok ==> exists|s: Seq<char>|
                #![auto]
                {
                    &&& crate::json::parsed_json(s) is Some
                    &&& crate::module::spec_decode_module(crate::json::parsed_json(s)->Some_0)
                        is Some
                    &&& crate::module::spec_build_ok(
                        crate::module::spec_decode_module(crate::json::parsed_json(s)->Some_0)->Some_0,
                        self.items_order,
                    )
                    &&& crate::module::spec_built(
                        crate::module::spec_decode_module(crate::json::parsed_json(s)->Some_0)->Some_0,
                        "global"@,
                        "global"@,
                        self.items_order,
                        r->Ok_0.deep_view(),
                    )
                },
    {
        crate::module::generate_module_documentation(engine, &self)
    }
}

} // verus!

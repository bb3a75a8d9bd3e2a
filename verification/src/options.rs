//! Configuration of a documentation build over function groups, and the
//! rendering of comment sections as plain markdown or as tabs.
use crate::doc_item::spec_directive_value;
use crate::error::AutodocsError;
use crate::function::{Metadata, MetadataView};
use crate::ordering::{
    insert_pos, le_total, le_trans, lemma_insert_le_at, lemma_sort_le_ensures, sort_le, sorted_le,
};
use crate::text::{
    dec_value, lemma_lex_total, lemma_lex_trans, lex_le, spec_lines, spec_split_once, split_lines,
    split_once_pat, str_lex_le,
};
use vstd::prelude::*;

verus! {

/// Options to configure documentation generation.
#[derive(Debug)]
pub struct Options {
    pub functions_order: FunctionOrder,
    pub sections_format: SectionFormat,
    pub include_standard_packages: bool,
}

/// Create new options used to configure documentation generation.
pub fn options() -> (r: Options)
    ensures
        r.functions_order is Alphabetical,
        r.sections_format is Rust,
        !r.include_standard_packages,
{
    Options::default()
}

impl Default for Options {
    fn default() -> (r: Self)
        ensures
            r.functions_order is Alphabetical,
            r.sections_format is Rust,
            !r.include_standard_packages,
    {
        Options {
            functions_order: FunctionOrder::Alphabetical,
            sections_format: SectionFormat::Rust,
            include_standard_packages: false,
        }
    }
}

impl Options {
    /// Include the standard package functions and modules documentation in
    /// the generated documentation markdown.
    pub fn include_standard_packages(self, include_standard_packages: bool) -> (r: Self)
        ensures
            r.include_standard_packages == include_standard_packages,
            r.functions_order == self.functions_order,
            r.sections_format == self.sections_format,
    {
        Options { include_standard_packages, ..self }
    }

    /// Order functions in a specific way.
    pub fn order_functions_with(self, functions_order: FunctionOrder) -> (r: Self)
        ensures
            r.functions_order == functions_order,
            r.sections_format == self.sections_format,
            r.include_standard_packages == self.include_standard_packages,
    {
        Options { functions_order, ..self }
    }

    /// Format doc-comment sections, markdown that starts with the heading
    /// character, with a special format.
    pub fn format_sections_with(self, sections_format: SectionFormat) -> (r: Self)
        ensures
            r.sections_format == sections_format,
            r.functions_order == self.functions_order,
            r.include_standard_packages == self.include_standard_packages,
    {
        Options { sections_format, ..self }
    }
}

/// Select in which order the function groups of a module are displayed.
#[derive(Debug)]
pub enum FunctionOrder {
    /// Display function groups in alphabetical order of their name.
    Alphabetical,
    /// Display function groups by the explicit index given by a directive
    /// line in a group's comments.
    ByIndex,
}

impl Clone for FunctionOrder {
    fn clone(&self) -> (r: Self)
        ensures
            r == *self,
    {
        match self {
            FunctionOrder::Alphabetical => FunctionOrder::Alphabetical,
            FunctionOrder::ByIndex => FunctionOrder::ByIndex,
        }
    }
}

impl Default for FunctionOrder {
    fn default() -> (r: Self)
        ensures
            r is Alphabetical,
    {
        FunctionOrder::Alphabetical
    }
}

/// Alphabetical comparison of function groups, by group name.
pub open spec fn group_name_le() -> spec_fn(
    (Seq<char>, Seq<MetadataView>),
    (Seq<char>, Seq<MetadataView>),
) -> bool {
    |a: (Seq<char>, Seq<MetadataView>), b: (Seq<char>, Seq<MetadataView>)| lex_le(a.0, b.0)
}

/// The group-name comparison is total and transitive.
pub proof fn lemma_group_name_le_props()
    ensures
        le_total(group_name_le()),
        le_trans(group_name_le()),
{
    assert forall|a: (Seq<char>, Seq<MetadataView>), b: (Seq<char>, Seq<MetadataView>)| #[trigger]
        group_name_le()(a, b) || #[trigger] group_name_le()(b, a) by {
        lemma_lex_total(a.0, b.0);
    }
    assert forall|
        a: (Seq<char>, Seq<MetadataView>),
        b: (Seq<char>, Seq<MetadataView>),
        c: (Seq<char>, Seq<MetadataView>),
    | #[trigger]
        group_name_le()(a, b) && #[trigger] group_name_le()(b, c) implies group_name_le()(
        a,
        c,
    ) by {
        lemma_lex_trans(a.0, b.0, c.0);
    }
}

/// The first directive value found in a group's overloads, scanning the
/// overloads in order and within each its comment lines.
pub open spec fn spec_group_directive(ms: Seq<MetadataView>) -> Option<Seq<char>>
    decreases ms.len(),
{
    if ms.len() == 0 {
        None
    } else {
        match ms[0].doc_comments {
            Some(dc) => match spec_directive_value(dc) {
                Some(v) => Some(v),
                None => spec_group_directive(ms.drop_first()),
            },
            None => spec_group_directive(ms.drop_first()),
        }
    }
}

/// Whether every group carries a well-formed directive whose indices form a
/// dense permutation of 1 up to the number of groups.
pub open spec fn spec_groups_indices_ok(gs: Seq<(Seq<char>, Seq<MetadataView>)>) -> bool {
    &&& forall|i: int|
        0 <= i < gs.len() ==> {
            &&& spec_group_directive((#[trigger] gs[i]).1) is Some
            &&& crate::doc_item::spec_valid_index(spec_group_directive(gs[i].1)->Some_0)
            &&& 1 <= dec_value(spec_group_directive(gs[i].1)->Some_0) <= gs.len()
        }
    &&& forall|i: int, j: int|
        0 <= i < j < gs.len() ==> dec_value(spec_group_directive(gs[i].1)->Some_0) != dec_value(
            spec_group_directive(gs[j].1)->Some_0,
        )
}

fn clone_group(g: &(String, Vec<Metadata>)) -> (r: (String, Vec<Metadata>))
    ensures
        r.deep_view() == g.deep_view(),
{
    let members = g.1.clone();
    proof {
        assert(members.deep_view() =~= g.1.deep_view());
    }
    (g.0.clone(), members)
}

/// The first directive value in the group's overloads, as the executable
/// scan finds it.
fn group_directive(ms: &Vec<Metadata>) -> (r: Option<usize>)
    ensures
        (match spec_group_directive(ms.deep_view()) {
            None => r is None,
            Some(v) => {
                if crate::doc_item::spec_valid_index(v) {
                    r is Some && r->Some_0 == dec_value(v)
                } else {
                    r is None
                }
            },
        }),
{
    let ghost msv = ms.deep_view();
    let mut i: usize = 0;
    proof {
        assert(msv.skip(0) =~= msv);
    }
    while i < ms.len()
        invariant
            msv == ms.deep_view(),
            msv.len() == ms.len(),
            0 <= i <= msv.len(),
            spec_group_directive(msv) == spec_group_directive(msv.skip(i as int)),
        decreases msv.len() - i,
    {
        proof {
            assert(msv.skip(i as int)[0] == msv[i as int]);
            assert(msv.skip(i as int).drop_first() =~= msv.skip(i + 1));
        }
        match &ms[i].doc_comments {
            Some(dc) => {
                match crate::doc_item::DocItem::find_index(dc) {
                    Ok(Some(n)) => {
                        return Some(n);
                    },
                    Ok(None) => {},
                    Err(_) => {
                        return None;
                    },
                }
            },
            None => {},
        }
        i += 1;
    }
    None
}

impl FunctionOrder {
    /// Order function groups following this mode. Alphabetical mode sorts the
    /// groups by name, stably. By-index mode places each group at the slot
    /// its directive gives; a group without a well-formed directive, an index
    /// outside 1 up to the number of groups, or two groups sharing an index,
    /// is an error naming the offending group.
    pub fn order_function_groups(&self, function_groups: Vec<(String, Vec<Metadata>)>) -> (r:
        Result<Vec<(String, Vec<Metadata>)>, AutodocsError>)
        ensures
            self is Alphabetical ==> r is Ok && r->Ok_0.deep_view() == sort_le(
                group_name_le(),
                function_groups.deep_view(),
            ),
            self is ByIndex ==> {
                &&& (r is Ok <==> spec_groups_indices_ok(function_groups.deep_view()))
                &&& (r is Err ==> r->Err_0 is PreProcessing)
                &&& (r is Ok ==> {
                    &&& r->Ok_0.deep_view().len() == function_groups.deep_view().len()
                    &&& forall|i: int|
                        0 <= i < function_groups.deep_view().len() ==> r->Ok_0.deep_view()[dec_value(
                            spec_group_directive(
                                (#[trigger] function_groups.deep_view()[i]).1,
                            )->Some_0,
                        ) - 1] == function_groups.deep_view()[i]
                })
            },
    {
        let ghost gs = function_groups.deep_view();
        match self {
            FunctionOrder::Alphabetical => {
                let ghost le = group_name_le();
                proof {
                    lemma_group_name_le_props();
                    assert(gs.take(0) =~= Seq::<(Seq<char>, Seq<MetadataView>)>::empty());
                }
                let mut out: Vec<(String, Vec<Metadata>)> = Vec::new();
                let mut i: usize = 0;
                while i < function_groups.len()
                    invariant
                        gs == function_groups.deep_view(),
                        gs.len() == function_groups.len(),
                        0 <= i <= gs.len(),
                        le == group_name_le(),
                        le_total(le),
                        le_trans(le),
                        out.deep_view() == sort_le(le, gs.take(i as int)),
                    decreases gs.len() - i,
                {
                    let x = clone_group(&function_groups[i]);
                    proof {
                        lemma_sort_le_ensures(le, gs.take(i as int));
                        assert(sorted_le(le, out.deep_view()));
                    }
                    let pos = find_group_pos(&out, &x);
                    let ghost prev = out.deep_view();
                    proof {
                        lemma_insert_le_at(le, x.deep_view(), prev, pos as int);
                    }
                    out.insert(pos, x);
                    proof {
                        assert(out.deep_view() =~= prev.insert(pos as int, x.deep_view()));
                        assert(gs.take(i + 1).drop_last() =~= gs.take(i as int));
                        assert(gs.take(i + 1).last() == gs[i as int]);
                        assert(out.deep_view() == crate::ordering::insert_le(
                            le,
                            gs[i as int],
                            prev,
                        ));
                    }
                    i += 1;
                }
                proof {
                    assert(gs.take(gs.len() as int) =~= gs);
                }
                Ok(out)
            },
            FunctionOrder::ByIndex => {
                let n = function_groups.len();
                // Every group's directive, each a dense 1-based index.
                let mut indices: Vec<usize> = Vec::new();
                let mut i: usize = 0;
                while i < n
                    invariant
                        self is ByIndex,
                        gs == function_groups.deep_view(),
                        gs.len() == n,
                        n == function_groups.len(),
                        0 <= i <= n,
                        indices@.len() == i,
                        forall|k: int|
                            0 <= k < i ==> {
                                &&& spec_group_directive((#[trigger] gs[k]).1) is Some
                                &&& crate::doc_item::spec_valid_index(
                                    spec_group_directive(gs[k].1)->Some_0,
                                )
                                &&& indices@[k] == dec_value(spec_group_directive(gs[k].1)->Some_0)
                                &&& 1 <= indices@[k] <= n
                            },
                        forall|k: int, l: int| 0 <= k < l < i ==> indices@[k] != indices@[l],
                    decreases n - i,
                {
                    let idx = match group_directive(&function_groups[i].1) {
                        Some(v) => v,
                        None => {
                            let mut msg = String::from_str(
                                "missing or malformed ordering directive in function ",
                            );
                            msg.append(function_groups[i].0.as_str());
                            proof {
                                assert(!spec_groups_indices_ok(gs));
                            }
                            return Err(AutodocsError::PreProcessing(msg));
                        },
                    };
                    if idx < 1 || idx > n {
                        let mut msg = String::from_str(
                            "ordering directive out of range in function ",
                        );
                        msg.append(function_groups[i].0.as_str());
                        proof {
                            assert(!spec_groups_indices_ok(gs));
                        }
                        return Err(AutodocsError::PreProcessing(msg));
                    }
                    let mut j: usize = 0;
                    while j < i
                        invariant
                            self is ByIndex,
                            gs == function_groups.deep_view(),
                            gs.len() == n,
                            n == function_groups.len(),
                            0 <= j <= i < n,
                            indices@.len() == i,
                            idx == dec_value(spec_group_directive(gs[i as int].1)->Some_0),
                            forall|k: int|
                                0 <= k < i ==> indices@[k] == dec_value(
                                    spec_group_directive((#[trigger] gs[k]).1)->Some_0,
                                ),
                            forall|k: int| 0 <= k < j ==> indices@[k] != idx,
                        decreases i - j,
                    {
                        if indices[j] == idx {
                            let mut msg = String::from_str(
                                "duplicate ordering directive in function ",
                            );
                            msg.append(function_groups[i].0.as_str());
                            proof {
                                assert(dec_value(spec_group_directive(gs[j as int].1)->Some_0)
                                    == dec_value(spec_group_directive(gs[i as int].1)->Some_0));
                                assert(!spec_groups_indices_ok(gs));
                            }
                            return Err(AutodocsError::PreProcessing(msg));
                        }
                        j += 1;
                    }
                    indices.push(idx);
                    i += 1;
                }
                // Place each group at its directive's slot; distinct indices
                // write distinct slots.
                let mut out: Vec<(String, Vec<Metadata>)> = Vec::new();
                let mut k: usize = 0;
                while k < n
                    invariant
                        gs == function_groups.deep_view(),
                        gs.len() == n,
                        n == function_groups.len(),
                        0 <= k <= n,
                        out.deep_view().len() == k,
                        forall|m: int| 0 <= m < k ==> out.deep_view()[m] == gs[m],
                    decreases n - k,
                {
                    let c = clone_group(&function_groups[k]);
                    let ghost cv = c.deep_view();
                    out.push(c);
                    proof {
                        assert(out.deep_view() =~= out.deep_view().take(k as int).push(cv));
                    }
                    k += 1;
                }
                let mut p: usize = 0;
                while p < n
                    invariant
                        self is ByIndex,
                        gs == function_groups.deep_view(),
                        gs.len() == n,
                        n == function_groups.len(),
                        0 <= p <= n,
                        out.deep_view().len() == n,
                        indices@.len() == n,
                        forall|m: int|
                            0 <= m < n ==> indices@[m] == dec_value(
                                spec_group_directive((#[trigger] gs[m]).1)->Some_0,
                            ) && 1 <= indices@[m] <= n,
                        forall|m: int, l: int| 0 <= m < l < n ==> indices@[m] != indices@[l],
                        forall|m: int|
                            0 <= m < p ==> out.deep_view()[(#[trigger] indices@[m]) - 1] == gs[m],
                    decreases n - p,
                {
                    let c = clone_group(&function_groups[p]);
                    let ghost cv = c.deep_view();
                    let ghost prev = out.deep_view();
                    proof {
                        assert(indices@[p as int] == dec_value(
                            spec_group_directive(gs[p as int].1)->Some_0,
                        ) && 1 <= indices@[p as int] <= n);
                        assert(cv == gs[p as int]);
                        assert(out.deep_view().len() == out@.len());
                    }
                    let slot = indices[p] - 1;
                    out.set(slot, c);
                    proof {
                        assert(out.deep_view() =~= prev.update(slot as int, cv));
                        assert forall|m: int| 0 <= m < p + 1 implies out.deep_view()[(
                        #[trigger] indices@[m]) - 1] == gs[m] by {
                            if m < p {
                                assert(indices@[m] != indices@[p as int]);
                            }
                        }
                    }
                    p += 1;
                }
                Ok(out)
            },
        }
    }
}

/// An ordered position for `x` among the alphabetically ordered groups.
fn find_group_pos(out: &Vec<(String, Vec<Metadata>)>, x: &(String, Vec<Metadata>)) -> (j: usize)
    ensures
        j <= out.len(),
        insert_pos(group_name_le(), x.deep_view(), out.deep_view(), j as int),
{
    let mut j: usize = out.len();
    loop
        invariant
            0 <= j <= out.len(),
            out.deep_view().len() == out.len(),
            forall|k: int|
                j <= k < out.len() ==> !group_name_le()(
                    #[trigger] out.deep_view()[k],
                    x.deep_view(),
                ),
        decreases j,
    {
        if j == 0 {
            return 0;
        }
        if str_lex_le(out[j - 1].0.as_str(), x.0.as_str()) {
            return j;
        }
        j -= 1;
    }
}

/// Options to format the display of comment sections marked with the heading
/// tag.
#[derive(Debug)]
pub enum SectionFormat {
    /// Display sections as source-language doc comments do, with plain
    /// markdown titles.
    Rust,
    /// Display sections as tabs that wrap the underlying documentation.
    Tabs,
}

impl Clone for SectionFormat {
    fn clone(&self) -> (r: Self)
        ensures
            r == *self,
    {
        match self {
            SectionFormat::Rust => SectionFormat::Rust,
            SectionFormat::Tabs => SectionFormat::Tabs,
        }
    }
}

impl Default for SectionFormat {
    fn default() -> (r: Self)
        ensures
            r is Rust,
    {
        SectionFormat::Rust
    }
}

/// The flat rendering: the whole comment wrapped in a details block.
pub open spec fn spec_fmt_sections_rust(dc: Seq<char>) -> Seq<char> {
    "\n<details>\n<summary markdown=\"span\"> details </summary>\n\n"@ + dc + "\n</details>\n"@
}

/// The state of the tab renderer: the tab contents built so far and the
/// section names seen so far.
pub ghost struct TabsState {
    pub content: Seq<char>,
    pub names: Seq<Seq<char>>,
}

/// The opening of the implicit description tab.
pub open spec fn spec_tab_open(fname: Seq<char>) -> Seq<char> {
    "<div id=\""@ + fname + "-description\" style=\"display: block;\" class=\"tabcontent active\">"@
}

/// One step of the tab renderer: a line that carries a heading marker closes
/// the open tab and opens one named by the text after the marker; any other
/// line joins the open tab.
pub open spec fn spec_tabs_step(st: TabsState, l: Seq<char>, fname: Seq<char>) -> TabsState {
    match spec_split_once(l, "# "@) {
        Some(p) => TabsState {
            content: st.content + "</div><div id=\""@ + fname + "-"@ + p.1
                + "\" class=\"tabcontent\">"@,
            names: st.names.push(p.1),
        },
        None => TabsState { content: st.content + l, names: st.names },
    }
}

pub open spec fn spec_tabs_loop(st: TabsState, lines: Seq<Seq<char>>, fname: Seq<char>) -> TabsState
    decreases lines.len(),
{
    if lines.len() == 0 {
        st
    } else {
        spec_tabs_loop(spec_tabs_step(st, lines[0], fname), lines.drop_first(), fname)
    }
}

/// One tab button per section name.
pub open spec fn spec_tab_buttons(names: Seq<Seq<char>>, fname: Seq<char>) -> Seq<char>
    decreases names.len(),
{
    if names.len() == 0 {
        Seq::empty()
    } else {
        "\n<button class=\"tablinks\" onclick=\"openTab(event, '"@ + fname + "-"@ + names[0]
            + "')\">"@ + names[0] + "</button>\n                        "@ + spec_tab_buttons(
            names.drop_first(),
            fname,
        )
    }
}

/// The opening of the button strip, with the implicit description button.
pub open spec fn spec_buttons_open(fname: Seq<char>) -> Seq<char> {
    "<div class=\"tab\">\n<button class=\"tablinks\" onclick=\"openTab(event, '"@ + fname
        + "-description')\">description</button>\n                    "@
}

/// The tabbed rendering of a cleaned comment: the button strip, then each
/// section's content in its own tab block.
pub open spec fn spec_fmt_sections_tabs(fname: Seq<char>, dc: Seq<char>) -> Seq<char> {
    let st = spec_tabs_loop(
        TabsState { content: spec_tab_open(fname), names: Seq::empty() },
        spec_lines(dc),
        fname,
    );
    spec_buttons_open(fname) + spec_tab_buttons(st.names, fname) + "</div>"@ + st.content
        + "</div>"@
}

impl SectionFormat {
    /// Render a cleaned documentation comment under this section format:
    /// wrapped whole in a details block, or split at heading lines into tab
    /// blocks with a button strip.
    pub fn fmt_sections(&self, function_name: &str, dc: String) -> (r: String)
        ensures
            self is Rust ==> r@ == spec_fmt_sections_rust(dc@),
            self is Tabs ==> r@ == spec_fmt_sections_tabs(function_name@, dc@),
    {
        match self {
            SectionFormat::Rust => {
                let mut out = String::from_str(
                    "\n<details>\n<summary markdown=\"span\"> details </summary>\n\n",
                );
                out.append(dc.as_str());
                out.append("\n</details>\n");
                out
            },
            SectionFormat::Tabs => {
                let ghost fname = function_name@;
                let lines = split_lines(dc.as_str());
                let ghost all = lines.deep_view();
                let mut content = String::from_str("<div id=\"");
                content.append(function_name);
                content.append("-description\" style=\"display: block;\" class=\"tabcontent active\">");
                let mut names: Vec<String> = Vec::new();
                let mut i: usize = 0;
                proof {
                    assert(all.skip(0) =~= all);
                    assert(content@ =~= spec_tab_open(fname));
                    assert(names.deep_view() =~= Seq::<Seq<char>>::empty());
                }
                while i < lines.len()
                    invariant
                        fname == function_name@,
                        all == lines.deep_view(),
                        all.len() == lines.len(),
                        0 <= i <= all.len(),
                        spec_tabs_loop(
                            TabsState { content: content@, names: names.deep_view() },
                            all.skip(i as int),
                            fname,
                        ) == spec_tabs_loop(
                            TabsState { content: spec_tab_open(fname), names: Seq::empty() },
                            all,
                            fname,
                        ),
                    decreases all.len() - i,
                {
                    let ghost st = TabsState { content: content@, names: names.deep_view() };
                    let ghost l = all[i as int];
                    proof {
                        assert(all.skip(i as int)[0] == l);
                        assert(all.skip(i as int).drop_first() =~= all.skip(i + 1));
                    }
                    match split_once_pat(lines[i].as_str(), "# ") {
                        Some(p) => {
                            content.append("</div><div id=\"");
                            content.append(function_name);
                            content.append("-");
                            content.append(p.1.as_str());
                            content.append("\" class=\"tabcontent\">");
                            let ghost nv = p.1@;
                            let ghost prevn = names.deep_view();
                            names.push(p.1);
                            proof {
                                assert(names.deep_view() =~= prevn.push(nv));
                                let st2 = TabsState {
                                    content: content@,
                                    names: names.deep_view(),
                                };
                                assert(st2.content =~= spec_tabs_step(st, l, fname).content);
                                assert(st2 == spec_tabs_step(st, l, fname));
                            }
                        },
                        None => {
                            content.append(lines[i].as_str());
                            proof {
                                let st2 = TabsState {
                                    content: content@,
                                    names: names.deep_view(),
                                };
                                assert(st2 == spec_tabs_step(st, l, fname));
                            }
                        },
                    }
                    i += 1;
                }
                proof {
                    assert(all.skip(i as int).len() == 0);
                }
                let ghost st = TabsState { content: content@, names: names.deep_view() };
                proof {
                    assert(spec_tabs_loop(st, all.skip(i as int), fname) == st);
                    assert(st == spec_tabs_loop(
                        TabsState { content: spec_tab_open(fname), names: Seq::empty() },
                        all,
                        fname,
                    ));
                    assert(all == spec_lines(dc@));
                }
                content.append("</div>");
                let mut out = String::from_str(
                    "<div class=\"tab\">\n<button class=\"tablinks\" onclick=\"openTab(event, '",
                );
                out.append(function_name);
                out.append("-description')\">description</button>\n                    ");
                proof {
                    assert(out@ =~= spec_buttons_open(fname));
                }
                let ghost allnames = names.deep_view();
                let mut b: usize = 0;
                proof {
                    assert(allnames.skip(0) =~= allnames);
                }
                while b < names.len()
                    invariant
                        fname == function_name@,
                        allnames == names.deep_view(),
                        allnames.len() == names.len(),
                        0 <= b <= allnames.len(),
                        out@ + spec_tab_buttons(allnames.skip(b as int), fname) == spec_buttons_open(
                            fname,
                        ) + spec_tab_buttons(allnames, fname),
                    decreases allnames.len() - b,
                {
                    proof {
                        assert(allnames.skip(b as int)[0] == allnames[b as int]);
                        assert(allnames.skip(b as int).drop_first() =~= allnames.skip(b + 1));
                    }
                    out.append("\n<button class=\"tablinks\" onclick=\"openTab(event, '");
                    out.append(function_name);
                    out.append("-");
                    out.append(names[b].as_str());
                    out.append("')\">");
                    out.append(names[b].as_str());
                    out.append("</button>\n                        ");
                    proof {
                        assert(out@ + spec_tab_buttons(allnames.skip(b + 1), fname)
                            =~= spec_buttons_open(fname) + spec_tab_buttons(allnames, fname));
                    }
                    b += 1;
                }
                proof {
                    assert(spec_tab_buttons(allnames.skip(b as int), fname) =~= Seq::<
                        char,
                    >::empty());
                    assert(out@ =~= out@ + Seq::<char>::empty());
                }
                let ghost buttons_done = out@;
                proof {
                    assert(buttons_done =~= spec_buttons_open(fname) + spec_tab_buttons(
                        allnames,
                        fname,
                    ));
                }
                out.append("</div>");
                out.append(content.as_str());
                proof {
                    assert(allnames == st.names);
                    assert(content@ == st.content + "</div>"@);
                    assert(out@ =~= buttons_done + "</div>"@ + (st.content + "</div>"@));
                    assert(buttons_done + "</div>"@ + (st.content + "</div>"@)
                        =~= spec_buttons_open(fname) + spec_tab_buttons(st.names, fname) + "</div>"@
                        + st.content + "</div>"@);
                    assert(out@ =~= spec_fmt_sections_tabs(fname, dc@));
                }
                out
            },
        }
    }
}

} // verus!

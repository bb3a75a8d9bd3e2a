//! Documentation items and comment processing: cleanup of raw doc comments,
//! the ordering directive, and extraction of named sections with a state
//! machine that respects fenced code blocks.
use crate::custom_types::{CustomTypesMetadata, CustomTypesMetadataView};
use crate::error::AutodocsError;
use crate::export::{index_pattern, spec_index_pattern, ItemsOrder, Options};
use crate::function::{clone_string_vec, Metadata, MetadataView};
use crate::text::{
    all_dec_digits, contains_pat, contains_pat_exec, dec_value, join_with, parse_usize_dec,
    replace_pat, rsplit_once_pat, spec_join_sep, spec_lines, spec_replace, spec_rsplit_once,
    spec_split_once, spec_trim_start, spec_unlines, split_lines, split_once_pat, starts_with_pat, trim_start_str,
};
use vstd::prelude::*;
use vstd::seq_lib::group_seq_properties;

verus! {

/// One named slice of a documentation comment.
#[derive(Debug)]
pub struct Section {
    pub name: String,
    pub body: String,
}

pub ghost struct SectionView {
    pub name: Seq<char>,
    pub body: Seq<char>,
}

impl View for Section {
    type V = SectionView;

    open spec fn view(&self) -> SectionView {
        SectionView { name: self.name@, body: self.body@ }
    }
}

impl DeepView for Section {
    type V = SectionView;

    open spec fn deep_view(&self) -> SectionView {
        self.view()
    }
}

impl Clone for Section {
    fn clone(&self) -> (r: Self)
        ensures
            r == *self,
    {
        Section { name: self.name.clone(), body: self.body.clone() }
    }
}

/// Whether the line carries an ordering directive.
pub open spec fn is_directive_line(l: Seq<char>) -> bool {
    contains_pat(l, spec_index_pattern())
}

/// One comment string with its directive lines removed.
pub open spec fn spec_strip_directive_lines(s: Seq<char>) -> Seq<char> {
    spec_join_sep(spec_lines(s).filter(|l: Seq<char>| !is_directive_line(l)), "\n"@)
}

/// Each comment string with its directive lines removed.
pub open spec fn spec_remove_extra_tokens(dc: Seq<Seq<char>>) -> Seq<Seq<char>> {
    dc.map_values(|s: Seq<char>| spec_strip_directive_lines(s))
}

/// A comment with the verbatim comment-marker tokens stripped.
pub open spec fn spec_fmt_doc_comments(s: Seq<char>) -> Seq<char> {
    spec_replace(
        spec_replace(
            spec_replace(spec_replace(spec_replace(s, "/// "@, ""@), "///"@, ""@), "/**"@, ""@),
            "**/"@,
            ""@,
        ),
        "**/"@,
        ""@,
    )
}

/// Whether a line's trimmed content begins with the triple-backtick fence
/// marker.
pub open spec fn is_fence_line(l: Seq<char>) -> bool {
    "```"@.is_prefix_of(spec_trim_start(l))
}

/// The lines kept by test-code removal: a fence line toggles the state and is
/// kept; inside a fence a line starting with the heading marker is hidden
/// sample boilerplate and is dropped; every other line is kept.
pub open spec fn spec_keep_lines(lines: Seq<Seq<char>>, in_code: bool) -> Seq<Seq<char>>
    decreases lines.len(),
{
    if lines.len() == 0 {
        Seq::empty()
    } else {
        let l = lines[0];
        let rest = lines.drop_first();
        if "```"@.is_prefix_of(l) {
            seq![l] + spec_keep_lines(rest, !in_code)
        } else if in_code && "# "@.is_prefix_of(l) {
            spec_keep_lines(rest, in_code)
        } else {
            seq![l] + spec_keep_lines(rest, in_code)
        }
    }
}

/// A comment with hidden test lines inside code fences removed.
pub open spec fn spec_remove_test_code(s: Seq<char>) -> Seq<char> {
    spec_join_sep(spec_keep_lines(spec_lines(s), false), "\n"@)
}

/// The full cleanup pipeline for one item's comments: directive lines
/// stripped, the strings joined, marker tokens removed, hidden test code
/// dropped.
pub open spec fn spec_format_comments(dc: Seq<Seq<char>>) -> Seq<char> {
    spec_remove_test_code(
        spec_fmt_doc_comments(spec_join_sep(spec_remove_extra_tokens(dc), "\n"@)),
    )
}

/// The text after the rightmost directive marker of the first comment line
/// that carries one.
pub open spec fn spec_directive_value(dc: Seq<Seq<char>>) -> Option<Seq<char>>
    decreases dc.len(),
{
    if dc.len() == 0 {
        None
    } else {
        match spec_rsplit_once(dc[0], spec_index_pattern()) {
            Some(p) => Some(p.1),
            None => spec_directive_value(dc.drop_first()),
        }
    }
}

/// Whether a directive value is a well-formed index: a non-empty string of
/// decimal digits whose value fits the platform's word.
pub open spec fn spec_valid_index(v: Seq<char>) -> bool {
    v.len() > 0 && all_dec_digits(v) && dec_value(v) <= usize::MAX
}

/// Generic representation of documentation for a specific item: a function
/// overload group or a custom type.
#[derive(Debug)]
pub enum DocItem {
    Function { root_metadata: Metadata, metadata: Vec<Metadata>, name: String, index: usize },
    CustomType { metadata: CustomTypesMetadata, index: usize },
}

pub ghost enum DocItemView {
    Function {
        root_metadata: MetadataView,
        metadata: Seq<MetadataView>,
        name: Seq<char>,
        index: usize,
    },
    CustomType { metadata: CustomTypesMetadataView, index: usize },
}

impl DeepView for DocItem {
    type V = DocItemView;

    open spec fn deep_view(&self) -> DocItemView {
        match self {
            DocItem::Function { root_metadata, metadata, name, index } => DocItemView::Function {
                root_metadata: root_metadata.deep_view(),
                metadata: metadata.deep_view(),
                name: name@,
                index: *index,
            },
            DocItem::CustomType { metadata, index } => DocItemView::CustomType {
                metadata: metadata.deep_view(),
                index: *index,
            },
        }
    }
}

impl Clone for DocItem {
    fn clone(&self) -> (r: Self)
        ensures
            r.deep_view() == self.deep_view(),
    {
        match self {
            DocItem::Function { root_metadata, metadata, name, index } => {
                let cm = metadata.clone();
                proof {
                    assert(cm.deep_view() =~= metadata.deep_view());
                }
                DocItem::Function {
                    root_metadata: root_metadata.clone(),
                    metadata: cm,
                    name: name.clone(),
                    index: *index,
                }
            },
            DocItem::CustomType { metadata, index } => DocItem::CustomType {
                metadata: metadata.clone(),
                index: *index,
            },
        }
    }
}

/// The explicit order index of the item's view.
pub open spec fn spec_item_index(d: DocItemView) -> usize {
    match d {
        DocItemView::Function { index, .. } => index,
        DocItemView::CustomType { index, .. } => index,
    }
}

/// The display name of the item's view.
pub open spec fn spec_item_name(d: DocItemView) -> Seq<char> {
    match d {
        DocItemView::Function { name, .. } => name,
        DocItemView::CustomType { metadata, .. } => metadata.display_name,
    }
}

/// Position of the first overload that carries doc comments.
pub open spec fn spec_first_documented(ms: Seq<MetadataView>) -> Option<int>
    decreases ms.len(),
{
    if ms.len() == 0 {
        None
    } else if ms[0].doc_comments is Some {
        Some(0)
    } else {
        match spec_first_documented(ms.drop_first()) {
            Some(i) => Some(i + 1),
            None => None,
        }
    }
}

impl DocItem {
    /// The order index of the item, taken from the ordering directive in
    /// by-index mode and 0 otherwise.
    pub fn index(&self) -> (r: usize)
        ensures
            r == spec_item_index(self.deep_view()),
    {
        match self {
            DocItem::CustomType { index, .. } => *index,
            DocItem::Function { index, .. } => *index,
        }
    }

    /// The display name of the item.
    pub fn name(&self) -> (r: &str)
        ensures
            r@ == spec_item_name(self.deep_view()),
    {
        match self {
            DocItem::CustomType { metadata, .. } => metadata.display_name.as_str(),
            DocItem::Function { name, .. } => name.as_str(),
        }
    }

    /// Find the order index of an item in its doc comments: the value after
    /// the rightmost directive marker of the first line that carries one;
    /// `None` where no line does; an error where the value is not a
    /// well-formed index.
    pub fn find_index(doc_comments: &Vec<String>) -> (r: Result<Option<usize>, AutodocsError>)
        ensures
            match spec_directive_value(doc_comments.deep_view()) {
                None => r is Ok && r->Ok_0 is None,
                Some(v) => {
                    if spec_valid_index(v) {
                        &&& r is Ok
                        &&& r->Ok_0 is Some
                        &&& r->Ok_0->Some_0 == dec_value(v)
                    } else {
                        r is Err && r->Err_0 is PreProcessing
                    }
                },
            },
    {
        let ghost dc = doc_comments.deep_view();
        let mut i: usize = 0;
        proof {
            assert(dc.skip(0) =~= dc);
        }
        while i < doc_comments.len()
            invariant
                dc == doc_comments.deep_view(),
                dc.len() == doc_comments.len(),
                0 <= i <= dc.len(),
                spec_directive_value(dc) == spec_directive_value(dc.skip(i as int)),
            decreases dc.len() - i,
        {
            proof {
                assert(dc.skip(i as int)[0] == dc[i as int]);
                assert(dc.skip(i as int).drop_first() =~= dc.skip(i + 1));
            }
            match rsplit_once_pat(doc_comments[i].as_str(), index_pattern()) {
                Some(p) => {
                    match parse_usize_dec(p.1.as_str()) {
                        Some(n) => {
                            return Ok(Some(n));
                        },
                        None => {
                            let mut msg = String::from_str(
                                "failed to parse order metadata in item documentation",
                            );
                            return Err(AutodocsError::PreProcessing(msg));
                        },
                    }
                },
                None => {},
            }
            i += 1;
        }
        proof {
            assert(dc.skip(i as int).len() == 0);
        }
        Ok(None)
    }

    /// Remove this library's own directive comments from each comment string.
    pub fn remove_extra_tokens(dc: Vec<String>) -> (r: Vec<String>)
        ensures
            r.deep_view() == spec_remove_extra_tokens(dc.deep_view()),
    {
        broadcast use group_seq_properties;

        let mut out: Vec<String> = Vec::new();
        let mut i: usize = 0;
        while i < dc.len()
            invariant
                0 <= i <= dc.len(),
                dc.deep_view().len() == dc.len(),
                out.deep_view().len() == i,
                forall|k: int|
                    0 <= k < i ==> out.deep_view()[k] == spec_strip_directive_lines(
                        #[trigger] dc.deep_view()[k],
                    ),
            decreases dc.len() - i,
        {
            let lines = split_lines(dc[i].as_str());
            let ghost all = lines.deep_view();
            let mut kept: Vec<String> = Vec::new();
            let mut j: usize = 0;
            proof {
                assert(all.take(0) =~= Seq::<Seq<char>>::empty());
                assert(Seq::<Seq<char>>::empty().filter(|l: Seq<char>| !is_directive_line(l))
                    =~= Seq::<Seq<char>>::empty());
            }
            while j < lines.len()
                invariant
                    0 <= j <= lines.len(),
                    all == lines.deep_view(),
                    all.len() == lines.len(),
                    kept.deep_view() == all.take(j as int).filter(
                        |l: Seq<char>| !is_directive_line(l),
                    ),
                decreases lines.len() - j,
            {
                let ghost prevk = kept.deep_view();
                let is_dir = contains_pat_exec(lines[j].as_str(), index_pattern());
                proof {
                    assert(all.take(j + 1).drop_last() =~= all.take(j as int));
                    assert(all.take(j + 1).last() == all[j as int]);
                }
                if !is_dir {
                    kept.push(lines[j].clone());
                    proof {
                        assert(kept.deep_view() =~= prevk.push(all[j as int]));
                    }
                }
                proof {
                    assert(all.take(j + 1) =~= all.take(j as int).push(all[j as int]));
                    all.take(j as int).lemma_filter_push(
                        all[j as int],
                        |l: Seq<char>| !is_directive_line(l),
                    );
                }
                j += 1;
            }
            proof {
                assert(all.take(lines.len() as int) =~= all);
            }
            let joined = join_with(&kept, "\n");
            let ghost prev = out.deep_view();
            out.push(joined);
            proof {
                assert(out.deep_view() =~= prev.push(joined@));
            }
            i += 1;
        }
        proof {
            assert(out.deep_view() =~= spec_remove_extra_tokens(dc.deep_view()));
        }
        out
    }

    /// Remove the verbatim doc-comment marker tokens.
    pub fn fmt_doc_comments(dc: String) -> (r: String)
        ensures
            r@ == spec_fmt_doc_comments(dc@),
    {
        proof {
            reveal_strlit("/// ");
            reveal_strlit("///");
            reveal_strlit("/**");
            reveal_strlit("**/");
        }
        let t1 = replace_pat(dc.as_str(), "/// ", "");
        let t2 = replace_pat(t1.as_str(), "///", "");
        let t3 = replace_pat(t2.as_str(), "/**", "");
        let t4 = replace_pat(t3.as_str(), "**/", "");
        replace_pat(t4.as_str(), "**/", "")
    }

    /// Remove lines of sample code that start with the heading marker inside
    /// a fenced code block: they are compilation-only boilerplate hidden from
    /// rendered documentation.
    pub fn remove_test_code(doc_comments: &str) -> (r: String)
        ensures
            r@ == spec_remove_test_code(doc_comments@),
    {
        let lines = split_lines(doc_comments);
        let ghost all = lines.deep_view();
        let mut kept: Vec<String> = Vec::new();
        let mut in_code = false;
        let mut i: usize = 0;
        proof {
            assert(all.skip(0) =~= all);
        }
        while i < lines.len()
            invariant
                0 <= i <= lines.len(),
                all == lines.deep_view(),
                all.len() == lines.len(),
                spec_keep_lines(all, false) == kept.deep_view() + spec_keep_lines(
                    all.skip(i as int),
                    in_code,
                ),
            decreases lines.len() - i,
        {
            let ghost prev = kept.deep_view();
            proof {
                assert(all.skip(i as int)[0] == all[i as int]);
                assert(all.skip(i as int).drop_first() =~= all.skip(i + 1));
            }
            if starts_with_pat(lines[i].as_str(), "```") {
                in_code = !in_code;
                kept.push(lines[i].clone());
                proof {
                    assert(kept.deep_view() =~= prev.push(all[i as int]));
                    assert(prev.push(all[i as int]) + spec_keep_lines(all.skip(i + 1), in_code)
                        =~= prev + (seq![all[i as int]] + spec_keep_lines(all.skip(i + 1), in_code)));
                }
            } else if in_code && starts_with_pat(lines[i].as_str(), "# ") {
                // hidden sample line: dropped
            } else {
                kept.push(lines[i].clone());
                proof {
                    assert(kept.deep_view() =~= prev.push(all[i as int]));
                    assert(prev.push(all[i as int]) + spec_keep_lines(all.skip(i + 1), in_code)
                        =~= prev + (seq![all[i as int]] + spec_keep_lines(all.skip(i + 1), in_code)));
                }
            }
            i += 1;
        }
        proof {
            assert(spec_keep_lines(all.skip(i as int), in_code) =~= Seq::<Seq<char>>::empty());
            assert(kept.deep_view() + Seq::<Seq<char>>::empty() =~= kept.deep_view());
        }
        join_with(&kept, "\n")
    }

    /// Format an item's doc comments into readable markdown.
    pub fn format_comments(doc_comments: &Vec<String>) -> (r: String)
        ensures
            r@ == spec_format_comments(doc_comments.deep_view()),
    {
        let cleaned = Self::remove_extra_tokens(clone_string_vec(doc_comments));
        let joined = join_with(&cleaned, "\n");
        let without_markers = Self::fmt_doc_comments(joined);
        Self::remove_test_code(without_markers.as_str())
    }
}

/// The state of the section scanner: the finished sections, the section
/// being accumulated, whether the scanner stands inside a fenced code block,
/// and whether an explicit heading has started a section yet.
pub ghost struct ExtractState {
    pub sections: Seq<SectionView>,
    pub cur_name: Seq<char>,
    pub cur_body: Seq<char>,
    pub in_fence: bool,
    pub started: bool,
}

/// The scanner starts on an implicit section named `Description`.
pub open spec fn extract_init() -> ExtractState {
    ExtractState {
        sections: Seq::empty(),
        cur_name: "Description"@,
        cur_body: Seq::empty(),
        in_fence: false,
        started: false,
    }
}

/// The name of the section a heading line opens: the non-empty text after
/// the first heading marker.
pub open spec fn heading_name(l: Seq<char>) -> Option<Seq<char>> {
    match spec_split_once(l, "# "@) {
        Some(p) => if p.1.len() > 0 {
            Some(p.1)
        } else {
            None
        },
        None => None,
    }
}

/// One step of the section scanner. A fence line toggles the fence state and
/// is kept in the body. Outside a fence, a heading line that is not the
/// ordering directive closes the current section — unless it is the untouched
/// implicit first section — and opens a new one; a directive line is
/// stripped. Inside a fence, a line starting with the heading marker is
/// hidden sample boilerplate and is dropped. Every other line joins the
/// current body.
pub open spec fn extract_step(st: ExtractState, l: Seq<char>) -> ExtractState {
    if is_fence_line(l) {
        ExtractState { cur_body: st.cur_body + l.push('\n'), in_fence: !st.in_fence, ..st }
    } else if !st.in_fence && heading_name(l) is Some && !is_directive_line(l) {
        ExtractState {
            sections: if st.started || st.cur_body.len() > 0 {
                st.sections.push(SectionView { name: st.cur_name, body: st.cur_body })
            } else {
                st.sections
            },
            cur_name: heading_name(l)->Some_0,
            cur_body: Seq::empty(),
            in_fence: st.in_fence,
            started: true,
        }
    } else if st.in_fence && "# "@.is_prefix_of(l) {
        st
    } else if !st.in_fence && is_directive_line(l) {
        st
    } else {
        ExtractState { cur_body: st.cur_body + l.push('\n'), ..st }
    }
}

pub open spec fn extract_loop(st: ExtractState, lines: Seq<Seq<char>>) -> ExtractState
    decreases lines.len(),
{
    if lines.len() == 0 {
        st
    } else {
        extract_loop(extract_step(st, lines[0]), lines.drop_first())
    }
}

/// At the end of the input the current section is flushed if it has content.
pub open spec fn extract_finish(st: ExtractState) -> Seq<SectionView> {
    if st.cur_body.len() > 0 {
        st.sections.push(SectionView { name: st.cur_name, body: st.cur_body })
    } else {
        st.sections
    }
}

/// The ordered sections of a cleaned documentation comment.
pub open spec fn spec_extract_sections(s: Seq<char>) -> Seq<SectionView> {
    extract_finish(extract_loop(extract_init(), spec_lines(s)))
}

impl Section {
    /// Split a cleaned documentation comment into its named sections.
    pub fn extract_sections(docs: &str) -> (r: Vec<Section>)
        ensures
            r.deep_view() == spec_extract_sections(docs@),
    {
        proof {
            reveal_strlit("\n");
        }
        let lines = split_lines(docs);
        let ghost all = lines.deep_view();
        let mut sections: Vec<Section> = Vec::new();
        let mut cur_name = String::from_str("Description");
        let mut cur_body = String::new();
        let mut in_fence = false;
        let mut started = false;
        let mut i: usize = 0;
        proof {
            assert(all.skip(0) =~= all);
            let st0 = ExtractState {
                sections: sections.deep_view(),
                cur_name: cur_name@,
                cur_body: cur_body@,
                in_fence: in_fence,
                started: started,
            };
            assert(st0.sections =~= extract_init().sections);
            assert(st0.cur_body =~= extract_init().cur_body);
            assert(st0 == extract_init());
        }
        while i < lines.len()
            invariant
                all == lines.deep_view(),
                all.len() == lines.len(),
                0 <= i <= all.len(),
                extract_loop(
                    ExtractState {
                        sections: sections.deep_view(),
                        cur_name: cur_name@,
                        cur_body: cur_body@,
                        in_fence: in_fence,
                        started: started,
                    },
                    all.skip(i as int),
                ) == extract_loop(extract_init(), all),
            decreases all.len() - i,
        {
            let ghost st = ExtractState {
                sections: sections.deep_view(),
                cur_name: cur_name@,
                cur_body: cur_body@,
                in_fence: in_fence,
                started: started,
            };
            let ghost l = all[i as int];
            proof {
                reveal_strlit("\n");
                assert(all.skip(i as int)[0] == l);
                assert(all.skip(i as int).drop_first() =~= all.skip(i + 1));
            }
            let trimmed = trim_start_str(lines[i].as_str());
            let is_dir = contains_pat_exec(lines[i].as_str(), index_pattern());
            if starts_with_pat(trimmed.as_str(), "```") {
                cur_body.append(lines[i].as_str());
                cur_body.append("\n");
                in_fence = !in_fence;
                proof {
                    assert(cur_body@ =~= st.cur_body + l.push('\n'));
                    let st2 = ExtractState {
                        sections: sections.deep_view(),
                        cur_name: cur_name@,
                        cur_body: cur_body@,
                        in_fence: in_fence,
                        started: started,
                    };
                    assert(st2 == extract_step(st, l));
                }
            } else {
                let name_opt = split_once_pat(lines[i].as_str(), "# ");
                let mut heading: Option<String> = None;
                match name_opt {
                    Some(p) => {
                        if p.1.unicode_len() > 0 {
                            heading = Some(p.1);
                        }
                    },
                    None => {},
                }
                proof {
                    if heading is Some {
                        assert(heading_name(l) == Some(heading->Some_0@));
                    } else {
                        assert(heading_name(l) is None);
                    }
                }
                match heading {
                    Some(h) if !in_fence && !is_dir => {
                        if started || cur_body.unicode_len() > 0 {
                            let ghost prev = sections.deep_view();
                            sections.push(Section { name: cur_name, body: cur_body });
                            proof {
                                assert(sections.deep_view() =~= prev.push(
                                    SectionView { name: st.cur_name, body: st.cur_body },
                                ));
                            }
                            cur_name = h;
                            cur_body = String::new();
                        } else {
                            cur_name = h;
                            cur_body = String::new();
                        }
                        started = true;
                        proof {
                            let st2 = ExtractState {
                                sections: sections.deep_view(),
                                cur_name: cur_name@,
                                cur_body: cur_body@,
                                in_fence: in_fence,
                                started: started,
                            };
                            assert(st2.cur_body =~= extract_step(st, l).cur_body);
                            assert(st2 == extract_step(st, l));
                        }
                    },
                    _ => {
                        if in_fence && starts_with_pat(lines[i].as_str(), "# ") {
                            // hidden sample line: dropped
                            proof {
                                let st2 = ExtractState {
                                    sections: sections.deep_view(),
                                    cur_name: cur_name@,
                                    cur_body: cur_body@,
                                    in_fence: in_fence,
                                    started: started,
                                };
                                assert(st2 == extract_step(st, l));
                            }
                        } else if !in_fence && is_dir {
                            // directive line: stripped from the output
                            proof {
                                let st2 = ExtractState {
                                    sections: sections.deep_view(),
                                    cur_name: cur_name@,
                                    cur_body: cur_body@,
                                    in_fence: in_fence,
                                    started: started,
                                };
                                assert(st2 == extract_step(st, l));
                            }
                        } else {
                            cur_body.append(lines[i].as_str());
                            cur_body.append("\n");
                            proof {
                                assert(cur_body@ =~= st.cur_body + l.push('\n'));
                                let st2 = ExtractState {
                                    sections: sections.deep_view(),
                                    cur_name: cur_name@,
                                    cur_body: cur_body@,
                                    in_fence: in_fence,
                                    started: started,
                                };
                                assert(st2 == extract_step(st, l));
                            }
                        }
                    },
                }
            }
            i += 1;
        }
        proof {
            assert(all.skip(i as int).len() == 0);
        }
        if !cur_body.as_str().is_empty() {
            let ghost prev = sections.deep_view();
            let ghost fname = cur_name@;
            let ghost fbody = cur_body@;
            sections.push(Section { name: cur_name, body: cur_body });
            proof {
                assert(sections.deep_view() =~= prev.push(SectionView { name: fname, body: fbody }));
            }
        }
        sections
    }
}

/// The first documented position lies in range and is documented.
pub proof fn lemma_first_documented_bounds(ms: Seq<MetadataView>)
    ensures
        match spec_first_documented(ms) {
            Some(j) => 0 <= j < ms.len() && (ms[j].doc_comments is Some),
            None => true,
        },
    decreases ms.len(),
{
    if ms.len() == 0 {
    } else if ms[0].doc_comments is Some {
    } else {
        lemma_first_documented_bounds(ms.drop_first());
    }
}

/// Position of the first overload that carries doc comments.
fn first_documented(metadata: &Vec<Metadata>) -> (r: Option<usize>)
    ensures
        match r {
            Some(i) => spec_first_documented(metadata.deep_view()) == Some(i as int),
            None => spec_first_documented(metadata.deep_view()) is None,
        },
{
    let ghost ms = metadata.deep_view();
    let mut i: usize = 0;
    proof {
        assert(ms.skip(0) =~= ms);
        lemma_first_documented_bounds(ms);
    }
    while i < metadata.len()
        invariant
            ms == metadata.deep_view(),
            ms.len() == metadata.len(),
            0 <= i <= ms.len(),
            (match spec_first_documented(ms) {
                Some(j) => i <= j && spec_first_documented(ms.skip(i as int)) == Some(j - i),
                None => spec_first_documented(ms.skip(i as int)) is None,
            }),
        decreases ms.len() - i,
    {
        proof {
            assert(ms.skip(i as int)[0] == ms[i as int]);
            assert(ms.skip(i as int).drop_first() =~= ms.skip(i + 1));
            lemma_first_documented_bounds(ms.skip(i + 1));
        }
        if metadata[i].doc_comments.is_some() {
            return Some(i);
        }
        i += 1;
    }
    None
}

/// The ensured shape of a freshly built function item.
pub open spec fn spec_function_item(
    d: DocItemView,
    ms: Seq<MetadataView>,
    name: Seq<char>,
    index: usize,
) -> bool {
    match d {
        DocItemView::Function { root_metadata, metadata, name: n, index: ix } => {
            &&& spec_first_documented(ms) is Some
            &&& root_metadata == ms[spec_first_documented(ms)->Some_0]
            &&& metadata == ms
            &&& n == name
            &&& ix == index
        },
        DocItemView::CustomType { .. } => false,
    }
}

impl DocItem {
    /// Build the documentation item of one function overload group. An
    /// anonymous or wholly undocumented group yields no item. The first
    /// overload that carries comments becomes the root documentation source.
    /// In by-index mode the root's ordering directive gives the item's index;
    /// a retained item without one, or with a malformed one, is an error
    /// naming the item.
    pub fn new_function(metadata: &Vec<Metadata>, name: &str, options: &Options) -> (r: Result<
        Option<DocItem>,
        AutodocsError,
    >)
        ensures
            ({
                let ms = metadata.deep_view();
                if "anon$"@.is_prefix_of(name@) || (spec_first_documented(ms) is None) {
                    r is Ok && r->Ok_0 is None
                } else {
                    let root = ms[spec_first_documented(ms)->Some_0];
                    match options.items_order {
                        ItemsOrder::Alphabetical => r is Ok && r->Ok_0 is Some
                            && spec_function_item(r->Ok_0->Some_0.deep_view(), ms, name@, 0),
                        ItemsOrder::ByIndex => match spec_directive_value(
                            root.doc_comments->Some_0,
                        ) {
                            None => r is Err && r->Err_0 is PreProcessing,
                            Some(v) => {
                                if spec_valid_index(v) {
                                    &&& r is Ok
                                    &&& r->Ok_0 is Some
                                    &&& spec_function_item(
                                        r->Ok_0->Some_0.deep_view(),
                                        ms,
                                        name@,
                                        dec_value(v) as usize,
                                    )
                                } else {
                                    r is Err && r->Err_0 is PreProcessing
                                }
                            },
                        },
                    }
                }
            }),
    {
        if starts_with_pat(name, "anon$") {
            return Ok(None);
        }
        match first_documented(metadata) {
            None => Ok(None),
            Some(ri) => {
                proof {
                    lemma_first_documented_bounds(metadata.deep_view());
                }
                let root = &metadata[ri];
                let index: usize = match options.items_order {
                    ItemsOrder::Alphabetical => 0,
                    ItemsOrder::ByIndex => {
                        match &root.doc_comments {
                            Some(dc) => {
                                match Self::find_index(dc) {
                                    Ok(Some(n)) => n,
                                    Ok(None) => {
                                        let mut msg = String::from_str(
                                            "missing ordering directive in item ",
                                        );
                                        msg.append(name);
                                        return Err(AutodocsError::PreProcessing(msg));
                                    },
                                    Err(e) => {
                                        return Err(e);
                                    },
                                }
                            },
                            None => {
                                proof {
                                    assert(false);
                                }
                                0
                            },
                        }
                    },
                };
                let cm = metadata.clone();
                proof {
                    assert(cm.deep_view() =~= metadata.deep_view());
                }
                Ok(
                    Some(
                        DocItem::Function {
                            root_metadata: root.clone(),
                            metadata: cm,
                            name: String::from_str(name),
                            index,
                        },
                    ),
                )
            },
        }
    }

    /// Build the documentation item of one custom type. A type without doc
    /// comments yields no item. In by-index mode its ordering directive gives
    /// the item's index; a retained type without one, or with a malformed
    /// one, is an error naming the type.
    pub fn new_custom_type(metadata: CustomTypesMetadata, options: &Options) -> (r: Result<
        Option<DocItem>,
        AutodocsError,
    >)
        ensures
            ({
                let m = metadata.deep_view();
                if m.doc_comments is None {
                    r is Ok && r->Ok_0 is None
                } else {
                    match options.items_order {
                        ItemsOrder::Alphabetical => r is Ok && r->Ok_0 is Some
                            && (r->Ok_0->Some_0.deep_view() == DocItemView::CustomType {
                            metadata: m,
                            index: 0,
                        }),
                        ItemsOrder::ByIndex => match spec_directive_value(m.doc_comments->Some_0) {
                            None => r is Err && r->Err_0 is PreProcessing,
                            Some(v) => {
                                if spec_valid_index(v) {
                                    &&& r is Ok
                                    &&& r->Ok_0 is Some
                                    &&& (r->Ok_0->Some_0.deep_view() == DocItemView::CustomType {
                                        metadata: m,
                                        index: dec_value(v) as usize,
                                    })
                                } else {
                                    r is Err && r->Err_0 is PreProcessing
                                }
                            },
                        },
                    }
                }
            }),
    {
        let index: usize = match &metadata.doc_comments {
            None => {
                return Ok(None);
            },
            Some(dc) => {
                match options.items_order {
                    ItemsOrder::Alphabetical => 0,
                    ItemsOrder::ByIndex => {
                        match Self::find_index(dc) {
                            Ok(Some(n)) => n,
                            Ok(None) => {
                                let mut msg = String::from_str(
                                    "missing ordering directive in custom type ",
                                );
                                msg.append(metadata.display_name.as_str());
                                return Err(AutodocsError::PreProcessing(msg));
                            },
                            Err(e) => {
                                return Err(e);
                            },
                        }
                    },
                }
            },
        };
        Ok(Some(DocItem::CustomType { metadata, index }))
    }
}

/// Inside a fenced code block no line splits off a new section: a scanner
/// step taken with the fence state set leaves the finished sections as they
/// were, whatever the line holds — a heading marker included.
pub proof fn lemma_no_section_split_inside_fence(st: ExtractState, l: Seq<char>)
    requires
        st.in_fence,
    ensures
        extract_step(st, l).sections == st.sections,
{
}

/// Body lines accumulate: scanning lines that hold no fence marker and no
/// heading appends them, each closed by a line feed, to the current body.
proof fn lemma_body_lines_accumulate(st: ExtractState, lines: Seq<Seq<char>>)
    requires
        !st.in_fence,
        forall|i: int|
            0 <= i < lines.len() ==> !is_fence_line(#[trigger] lines[i]) && (heading_name(
                lines[i],
            ) is None),
    ensures
        extract_loop(st, lines) == (ExtractState {
            cur_body: st.cur_body + spec_unlines(lines),
            ..st
        }),
    decreases lines.len(),
{
    if lines.len() == 0 {
        assert(st.cur_body + spec_unlines(lines) =~= st.cur_body);
        let st2 = ExtractState { cur_body: st.cur_body + spec_unlines(lines), ..st };
        assert(extract_loop(st, lines) == st);
        assert(st2 == st);
    } else {
        let l = lines[0];
        // A directive line contains the heading marker followed by text, so a
        // line without a heading is not one either.
        assert(!is_directive_line(l)) by {
            if is_directive_line(l) {
                reveal_strlit("# rhai-autodocs:index:");
                reveal_strlit("# ");
                let pat = spec_index_pattern();
                lemma_contains_find(l, pat);
                let j = crate::text::spec_find(l, pat)->Some_0;
                assert(crate::text::match_at(l, pat, j));
                // The directive marker itself begins with the heading marker.
                assert(crate::text::match_at(l, "# "@, j)) by {
                    assert(pat.subrange(0, 2) =~= "# "@);
                    assert(l.subrange(j, j + 2) =~= l.subrange(j, j + pat.len() as int).subrange(
                        0,
                        2,
                    ));
                }
                lemma_match_implies_find(l, "# "@, j);
                let k = crate::text::spec_find(l, "# "@)->Some_0;
                assert(k <= j);
                // Without a heading nothing follows the first marker, yet the
                // directive text extends past it.
                assert(heading_name(lines[0]) is None);
                assert(pat.len() == 22);
                assert("# "@.len() == 2);
                crate::text::lemma_find_from_bounds(l, "# "@, 0);
                assert(0 <= k && k + 2 <= l.len());
                assert(spec_split_once(l, "# "@) == Some((l.take(k), l.skip(k + 2))));
                assert(l.skip(k + 2).len() == 0);
                assert(l.len() == k + 2);
                assert(j + 22 <= l.len());
                assert(false);
            }
        }
        let st1 = extract_step(st, l);
        assert(st1 == ExtractState { cur_body: st.cur_body + l.push('\n'), ..st });
        lemma_body_lines_accumulate(st1, lines.drop_first());
        assert((st.cur_body + l.push('\n')) + spec_unlines(lines.drop_first()) =~= st.cur_body
            + spec_unlines(lines));
    }
}

/// A sequence that contains a pattern has a leftmost match.
proof fn lemma_contains_find(s: Seq<char>, pat: Seq<char>)
    requires
        contains_pat(s, pat),
        pat.len() > 0,
    ensures
        crate::text::match_at(s, pat, crate::text::spec_find(s, pat)->Some_0),
    decreases s.len(),
{
    lemma_find_from_sound(s, pat, 0);
}

proof fn lemma_find_from_sound(s: Seq<char>, pat: Seq<char>, i: int)
    ensures
        match crate::text::spec_find_from(s, pat, i) {
            Some(j) => pat.len() == 0 || crate::text::match_at(s, pat, j),
            None => true,
        },
    decreases s.len() - i,
{
    if i < 0 || i + pat.len() > s.len() {
    } else if pat.len() == 0 || crate::text::match_at(s, pat, i) {
    } else {
        lemma_find_from_sound(s, pat, i + 1);
    }
}

/// A match at `j` means the leftmost match exists and is at or before `j`.
proof fn lemma_match_implies_find(s: Seq<char>, pat: Seq<char>, j: int)
    requires
        crate::text::match_at(s, pat, j),
    ensures
        crate::text::spec_find(s, pat) is Some,
        crate::text::spec_find(s, pat)->Some_0 <= j,
{
    lemma_find_from_finds(s, pat, 0, j);
}

proof fn lemma_find_from_finds(s: Seq<char>, pat: Seq<char>, i: int, j: int)
    requires
        crate::text::match_at(s, pat, j),
        0 <= i <= j,
    ensures
        crate::text::spec_find_from(s, pat, i) is Some,
        crate::text::spec_find_from(s, pat, i)->Some_0 <= j,
    decreases j - i,
{
    if i + pat.len() > s.len() {
        assert(false);
    } else if pat.len() == 0 || crate::text::match_at(s, pat, i) {
    } else {
        assert(i < j);
        lemma_find_from_finds(s, pat, i + 1, j);
    }
}

/// The leftmost match is at or before any other match.
proof fn lemma_find_is_first(s: Seq<char>, pat: Seq<char>)
    ensures
        forall|j: int|
            crate::text::match_at(s, pat, j) ==> crate::text::spec_find(s, pat) is Some
                && crate::text::spec_find(s, pat)->Some_0 <= j,
{
    assert forall|j: int| crate::text::match_at(s, pat, j) implies crate::text::spec_find(s, pat)
        is Some && crate::text::spec_find(s, pat)->Some_0 <= j by {
        lemma_match_implies_find(s, pat, j);
    }
}

/// Section extraction is idempotent on an already-extracted body: a non-empty
/// line-terminated text with no heading markers and no fence lines extracts
/// to exactly one `Description` section whose body is the text itself.
pub proof fn lemma_extract_idempotent(s: Seq<char>)
    requires
        s.len() > 0,
        s == spec_unlines(spec_lines(s)),
        forall|i: int|
            0 <= i < spec_lines(s).len() ==> !is_fence_line(#[trigger] spec_lines(s)[i]) && (
            heading_name(spec_lines(s)[i]) is None),
    ensures
        spec_extract_sections(s) == seq![SectionView { name: "Description"@, body: s }],
{
    lemma_body_lines_accumulate(extract_init(), spec_lines(s));
    let fin = extract_loop(extract_init(), spec_lines(s));
    assert(fin.cur_body =~= s);
    assert(extract_finish(fin) =~= seq![SectionView { name: "Description"@, body: s }]);
}

} // verus!

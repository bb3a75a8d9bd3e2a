//! Character-level string utilities: substring search, splitting, replacement,
//! line handling, decimal parsing and lexicographic comparison, each specified
//! against a mathematical model over `Seq<char>`.
use vstd::prelude::*;

verus! {

/// The pattern `pat` occurs in `s` at position `i`.
pub open spec fn match_at(s: Seq<char>, pat: Seq<char>, i: int) -> bool {
    0 <= i && i + pat.len() <= s.len() && s.subrange(i, i + pat.len() as int) == pat
}

/// Position of the leftmost occurrence of `pat` in `s` at or after `i`.
pub open spec fn spec_find_from(s: Seq<char>, pat: Seq<char>, i: int) -> Option<int>
    decreases s.len() - i,
{
    if i < 0 || i + pat.len() > s.len() {
        None
    } else if pat.len() == 0 || match_at(s, pat, i) {
        Some(i)
    } else {
        spec_find_from(s, pat, i + 1)
    }
}

/// Position of the leftmost occurrence of `pat` in `s`, if any.
pub open spec fn spec_find(s: Seq<char>, pat: Seq<char>) -> Option<int> {
    spec_find_from(s, pat, 0)
}

/// Position of the rightmost occurrence of `pat` in `s` at or before `i`.
pub open spec fn spec_rfind_from(s: Seq<char>, pat: Seq<char>, i: int) -> Option<int>
    decreases i + 1,
{
    if i < 0 || i + pat.len() > s.len() {
        None
    } else if match_at(s, pat, i) {
        Some(i)
    } else {
        spec_rfind_from(s, pat, i - 1)
    }
}

/// Position of the rightmost occurrence of `pat` in `s`, if any.
pub open spec fn spec_rfind(s: Seq<char>, pat: Seq<char>) -> Option<int> {
    spec_rfind_from(s, pat, s.len() - pat.len())
}

pub open spec fn contains_pat(s: Seq<char>, pat: Seq<char>) -> bool {
    spec_find(s, pat) is Some
}

/// Equality of two string slices, decided character by character.
pub fn str_eq(a: &str, b: &str) -> (r: bool)
    ensures
        r == (a@ == b@),
{
    let alen = a.unicode_len();
    let blen = b.unicode_len();
    if alen != blen {
        assert(a@ != b@);
        return false;
    }
    let mut i: usize = 0;
    while i < alen
        invariant
            alen == a@.len(),
            alen == b@.len(),
            0 <= i <= alen,
            forall|k: int| 0 <= k < i ==> a@[k] == b@[k],
        decreases alen - i,
    {
        if a.get_char(i) != b.get_char(i) {
            return false;
        }
        i += 1;
    }
    assert(a@ =~= b@);
    true
}

/// Whether `pat` occurs in `s` exactly at position `i`.
fn has_match_at(s: &str, pat: &str, i: usize, slen: usize, plen: usize) -> (r: bool)
    requires
        slen == s@.len(),
        plen == pat@.len(),
        i <= slen,
    ensures
        r == match_at(s@, pat@, i as int),
{
    if plen > slen - i {
        assert(!match_at(s@, pat@, i as int));
        return false;
    }
    let mut k: usize = 0;
    while k < plen
        invariant
            slen == s@.len(),
            plen == pat@.len(),
            0 <= i,
            i + plen <= slen,
            0 <= k <= plen,
            forall|m: int| 0 <= m < k ==> s@[i + m] == pat@[m],
        decreases plen - k,
    {
        if s.get_char(i + k) != pat.get_char(k) {
            assert(s@.subrange(i as int, i + plen) != pat@) by {
                assert(s@.subrange(i as int, i + plen)[k as int] == s@[i + k]);
            }
            return false;
        }
        k += 1;
    }
    assert(s@.subrange(i as int, i + plen) =~= pat@);
    true
}

/// Leftmost occurrence of `pat` in `s`.
pub fn find_pat(s: &str, pat: &str) -> (r: Option<usize>)
    ensures
        match r {
            Some(i) => spec_find(s@, pat@) == Some(i as int),
            None => spec_find(s@, pat@) is None,
        },
{
    let slen = s.unicode_len();
    let plen = pat.unicode_len();
    if plen > slen {
        return None;
    }
    if plen == 0 {
        return Some(0);
    }
    let last = slen - plen;
    let mut i: usize = 0;
    loop
        invariant
            slen == s@.len(),
            plen == pat@.len(),
            0 < plen <= slen,
            last == slen - plen,
            0 <= i <= last + 1,
            spec_find(s@, pat@) == spec_find_from(s@, pat@, i as int),
        decreases slen - i,
    {
        if i > last {
            assert(spec_find_from(s@, pat@, i as int) is None);
            return None;
        }
        if has_match_at(s, pat, i, slen, plen) {
            assert(spec_find_from(s@, pat@, i as int) == Some(i as int));
            return Some(i);
        }
        assert(spec_find_from(s@, pat@, i as int) == spec_find_from(s@, pat@, i + 1));
        i += 1;
    }
}

/// Rightmost occurrence of `pat` in `s`.
pub fn rfind_pat(s: &str, pat: &str) -> (r: Option<usize>)
    ensures
        match r {
            Some(i) => spec_rfind(s@, pat@) == Some(i as int),
            None => spec_rfind(s@, pat@) is None,
        },
{
    let slen = s.unicode_len();
    let plen = pat.unicode_len();
    if plen > slen {
        assert(spec_rfind(s@, pat@) is None);
        return None;
    }
    let mut i: usize = slen - plen;
    loop
        invariant
            slen == s@.len(),
            plen == pat@.len(),
            plen <= slen,
            0 <= i <= slen - plen,
            spec_rfind(s@, pat@) == spec_rfind_from(s@, pat@, i as int),
        decreases i + 1,
    {
        if has_match_at(s, pat, i, slen, plen) {
            assert(spec_rfind_from(s@, pat@, i as int) == Some(i as int));
            return Some(i);
        }
        assert(spec_rfind_from(s@, pat@, i as int) == spec_rfind_from(s@, pat@, i - 1));
        if i == 0 {
            assert(spec_rfind_from(s@, pat@, -1) is None);
            return None;
        }
        i -= 1;
    }
}

/// Whether `pat` occurs anywhere in `s`.
pub fn contains_pat_exec(s: &str, pat: &str) -> (r: bool)
    ensures
        r == contains_pat(s@, pat@),
{
    find_pat(s, pat).is_some()
}

/// Whether `s` starts with `pat`.
pub fn starts_with_pat(s: &str, pat: &str) -> (r: bool)
    ensures
        r == pat@.is_prefix_of(s@),
{
    let slen = s.unicode_len();
    let plen = pat.unicode_len();
    if plen > slen {
        return false;
    }
    let r = has_match_at(s, pat, 0, slen, plen);
    proof {
        assert(pat@.is_prefix_of(s@) == match_at(s@, pat@, 0));
    }
    r
}

/// Pieces around the leftmost occurrence of `pat`, if any.
pub open spec fn spec_split_once(s: Seq<char>, pat: Seq<char>) -> Option<(Seq<char>, Seq<char>)> {
    match spec_find(s, pat) {
        Some(i) => Some((s.take(i), s.skip(i + pat.len()))),
        None => None,
    }
}

/// Pieces around the rightmost occurrence of `pat`, if any.
pub open spec fn spec_rsplit_once(s: Seq<char>, pat: Seq<char>) -> Option<(Seq<char>, Seq<char>)> {
    match spec_rfind(s, pat) {
        Some(i) => Some((s.take(i), s.skip(i + pat.len()))),
        None => None,
    }
}

pub proof fn lemma_find_from_bounds(s: Seq<char>, pat: Seq<char>, i: int)
    ensures
        match spec_find_from(s, pat, i) {
            Some(j) => i <= j && 0 <= j && j + pat.len() <= s.len(),
            None => true,
        },
    decreases s.len() - i,
{
    if i < 0 || i + pat.len() > s.len() {
    } else if pat.len() == 0 || match_at(s, pat, i) {
    } else {
        lemma_find_from_bounds(s, pat, i + 1);
    }
}

pub proof fn lemma_rfind_bounds(s: Seq<char>, pat: Seq<char>, i: int)
    ensures
        match spec_rfind_from(s, pat, i) {
            Some(j) => 0 <= j && j <= i && j + pat.len() <= s.len(),
            None => true,
        },
    decreases i + 1,
{
    if i < 0 || i + pat.len() > s.len() {
    } else if match_at(s, pat, i) {
    } else {
        lemma_rfind_bounds(s, pat, i - 1);
    }
}

/// Pieces around the leftmost occurrence of `pat`.
pub fn split_once_pat(s: &str, pat: &str) -> (r: Option<(String, String)>)
    ensures
        match r {
            Some(p) => spec_split_once(s@, pat@) == Some((p.0@, p.1@)),
            None => spec_split_once(s@, pat@) is None,
        },
{
    match find_pat(s, pat) {
        Some(i) => {
            proof {
                lemma_find_from_bounds(s@, pat@, 0);
            }
            let slen = s.unicode_len();
            let plen = pat.unicode_len();
            let before = s.substring_char(0, i);
            let after = s.substring_char(i + plen, slen);
            assert(s@.subrange(0, i as int) =~= s@.take(i as int));
            assert(s@.subrange(i + pat@.len(), s@.len() as int) =~= s@.skip(i + pat@.len()));
            Some((String::from_str(before), String::from_str(after)))
        },
        None => None,
    }
}

/// Pieces around the rightmost occurrence of `pat`.
pub fn rsplit_once_pat(s: &str, pat: &str) -> (r: Option<(String, String)>)
    ensures
        match r {
            Some(p) => spec_rsplit_once(s@, pat@) == Some((p.0@, p.1@)),
            None => spec_rsplit_once(s@, pat@) is None,
        },
{
    match rfind_pat(s, pat) {
        Some(i) => {
            proof {
                lemma_rfind_bounds(s@, pat@, s@.len() - pat@.len());
            }
            let slen = s.unicode_len();
            let plen = pat.unicode_len();
            let before = s.substring_char(0, i);
            let after = s.substring_char(i + plen, slen);
            assert(s@.subrange(0, i as int) =~= s@.take(i as int));
            assert(s@.subrange(i + pat@.len(), s@.len() as int) =~= s@.skip(i + pat@.len()));
            Some((String::from_str(before), String::from_str(after)))
        },
        None => None,
    }
}

/// Replacement of the non-overlapping occurrences of `from` in the suffix of
/// `s` that starts at `i`, scanned left to right, by `to`.
pub open spec fn spec_replace_from(s: Seq<char>, from: Seq<char>, to: Seq<char>, i: int) -> Seq<
    char,
>
    decreases s.len() - i,
{
    if i < 0 || i >= s.len() || from.len() == 0 {
        Seq::empty()
    } else if match_at(s, from, i) {
        to + spec_replace_from(s, from, to, i + from.len())
    } else {
        seq![s[i]] + spec_replace_from(s, from, to, i + 1)
    }
}

/// `s` with every non-overlapping occurrence of `from` replaced by `to`.
pub open spec fn spec_replace(s: Seq<char>, from: Seq<char>, to: Seq<char>) -> Seq<char> {
    spec_replace_from(s, from, to, 0)
}

pub fn replace_pat(s: &str, from: &str, to: &str) -> (r: String)
    requires
        from@.len() > 0,
    ensures
        r@ == spec_replace(s@, from@, to@),
{
    let slen = s.unicode_len();
    let flen = from.unicode_len();
    let mut out = String::new();
    let mut i: usize = 0;
    while i < slen
        invariant
            slen == s@.len(),
            flen == from@.len(),
            flen > 0,
            0 <= i <= slen,
            spec_replace(s@, from@, to@) == out@ + spec_replace_from(s@, from@, to@, i as int),
        decreases slen - i,
    {
        if has_match_at(s, from, i, slen, flen) {
            out.append(to);
            i += flen;
        } else {
            let piece = s.substring_char(i, i + 1);
            assert(s@.subrange(i as int, i + 1) =~= seq![s@[i as int]]);
            out.append(piece);
            i += 1;
        }
    }
    assert(spec_replace_from(s@, from@, to@, i as int) == Seq::<char>::empty());
    assert(out@ =~= out@ + Seq::<char>::empty());
    out
}

/// A line with a trailing carriage return removed, as the standard line
/// iterator strips one before each line feed.
pub open spec fn strip_cr(l: Seq<char>) -> Seq<char> {
    if l.len() > 0 && l[l.len() - 1] == '\r' {
        l.take(l.len() - 1)
    } else {
        l
    }
}

/// The lines of `s`: pieces separated by line feeds, a carriage return
/// directly before a line feed stripped, no final empty piece after a
/// terminating line feed.
pub open spec fn spec_lines(s: Seq<char>) -> Seq<Seq<char>>
    decreases s.len(),
    via spec_lines_decreases
{
    if s.len() == 0 {
        Seq::empty()
    } else {
        match spec_find(s, seq!['\n']) {
            Some(j) => seq![strip_cr(s.take(j))] + spec_lines(s.skip(j + 1)),
            None => seq![s],
        }
    }
}

#[via_fn]
proof fn spec_lines_decreases(s: Seq<char>) {
    lemma_find_from_bounds(s, seq!['\n'], 0);
}

/// The lines of `s`.
pub fn split_lines(s: &str) -> (r: Vec<String>)
    ensures
        r.deep_view() == spec_lines(s@),
{
    let mut out: Vec<String> = Vec::new();
    let slen = s.unicode_len();
    let mut i: usize = 0;
    proof {
        assert(s@.skip(0) =~= s@);
    }
    while i < slen
        invariant
            slen == s@.len(),
            0 <= i <= slen,
            spec_lines(s@) == out.deep_view() + spec_lines(s@.skip(i as int)),
        decreases slen - i,
    {
        let ghost rest = s@.skip(i as int);
        let ghost prev = out.deep_view();
        match find_nl_from(s, i, slen) {
            Some(j) => {
                proof {
                    assert(match_at(s@, seq!['\n'], j as int)) by {
                        assert(s@.subrange(j as int, j + 1) =~= seq!['\n']);
                    }
                    assert(spec_find_from(s@, seq!['\n'], j as int) == Some(j as int));
                    lemma_find_shift(s@, i as int, j as int);
                }
                let ghost jr = j - i;
                proof {
                    assert(rest.take(jr) =~= s@.subrange(i as int, j as int));
                }
                // A line feed at j ends the current line; a carriage return
                // directly before it is stripped.
                let line: &str;
                if j > i && s.get_char(j - 1) == '\r' {
                    line = s.substring_char(i, j - 1);
                    proof {
                        assert(rest.take(jr)[jr - 1] == s@[j - 1]);
                        assert(line@ =~= rest.take(jr).take(jr - 1));
                        assert(strip_cr(rest.take(jr)) =~= line@);
                    }
                } else {
                    line = s.substring_char(i, j);
                    proof {
                        if jr > 0 {
                            assert(rest.take(jr)[jr - 1] == s@[j - 1]);
                        }
                        assert(strip_cr(rest.take(jr)) =~= line@);
                    }
                }
                out.push(String::from_str(line));
                proof {
                    assert(spec_lines(rest) == seq![strip_cr(rest.take(jr))] + spec_lines(
                        rest.skip(jr + 1),
                    ));
                    assert(out.deep_view() =~= prev.push(line@));
                    assert(prev.push(line@) + spec_lines(rest.skip(jr + 1)) =~= prev + spec_lines(
                        rest,
                    ));
                    assert(rest.skip(jr + 1) =~= s@.skip(j + 1));
                }
                i = j + 1;
            },
            None => {
                proof {
                    lemma_find_shift(s@, i as int, slen as int);
                }
                // No further line feed: the remainder is the last line.
                let line = s.substring_char(i, slen);
                proof {
                    assert(line@ =~= rest);
                    assert(spec_lines(rest) == seq![rest]);
                }
                out.push(String::from_str(line));
                proof {
                    assert(out.deep_view() =~= prev.push(rest));
                    assert(prev.push(rest) =~= prev + spec_lines(rest));
                }
                i = slen;
            },
        }
    }
    proof {
        assert(spec_lines(s@.skip(i as int)) == Seq::<Seq<char>>::empty());
        assert(out.deep_view() =~= out.deep_view() + Seq::<Seq<char>>::empty());
    }
    out
}

/// The pieces of `ls` concatenated with `sep` between each two.
pub open spec fn spec_join_sep(ls: Seq<Seq<char>>, sep: Seq<char>) -> Seq<char>
    decreases ls.len(),
{
    if ls.len() == 0 {
        Seq::empty()
    } else if ls.len() == 1 {
        ls[0]
    } else {
        ls[0] + sep + spec_join_sep(ls.drop_first(), sep)
    }
}

pub proof fn lemma_join_sep_push(ls: Seq<Seq<char>>, sep: Seq<char>, x: Seq<char>)
    ensures
        spec_join_sep(ls.push(x), sep) == if ls.len() == 0 {
            x
        } else {
            spec_join_sep(ls, sep) + sep + x
        },
    decreases ls.len(),
{
    if ls.len() == 0 {
        assert(ls.push(x) =~= seq![x]);
        assert(seq![x][0] == x);
        assert(spec_join_sep(seq![x], sep) == x);
    } else if ls.len() == 1 {
        assert(ls.push(x).drop_first() =~= seq![x]);
        assert(ls.push(x)[0] == ls[0]);
        assert(seq![x][0] == x);
        assert(spec_join_sep(seq![x], sep) == x);
        assert(spec_join_sep(ls.push(x), sep) == ls[0] + sep + x);
    } else {
        lemma_join_sep_push(ls.drop_first(), sep, x);
        assert(ls.push(x).drop_first() =~= ls.drop_first().push(x));
        assert(spec_join_sep(ls.push(x), sep) == ls[0] + sep + spec_join_sep(
            ls.drop_first().push(x),
            sep,
        ));
        assert(ls[0] + sep + (spec_join_sep(ls.drop_first(), sep) + sep + x) =~= (ls[0] + sep
            + spec_join_sep(ls.drop_first(), sep)) + sep + x);
    }
}

/// The pieces of `v` joined with the separator `sep`.
pub fn join_with(v: &Vec<String>, sep: &str) -> (r: String)
    ensures
        r@ == spec_join_sep(v.deep_view(), sep@),
{
    let mut out = String::new();
    let mut i: usize = 0;
    proof {
        assert(v.deep_view().take(0) =~= Seq::<Seq<char>>::empty());
    }
    while i < v.len()
        invariant
            0 <= i <= v.deep_view().len(),
            v.deep_view().len() == v.len(),
            out@ == spec_join_sep(v.deep_view().take(i as int), sep@),
        decreases v.len() - i,
    {
        if i > 0 {
            out.append(sep);
        }
        out.append(v[i].as_str());
        proof {
            assert(v.deep_view().take(i + 1) =~= v.deep_view().take(i as int).push(
                v.deep_view()[i as int],
            ));
            lemma_join_sep_push(v.deep_view().take(i as int), sep@, v.deep_view()[i as int]);
        }
        i += 1;
    }
    proof {
        assert(v.deep_view().take(v.deep_view().len() as int) =~= v.deep_view());
    }
    out
}

/// Each piece of `ls` followed by a line feed, concatenated.
pub open spec fn spec_unlines(ls: Seq<Seq<char>>) -> Seq<char>
    decreases ls.len(),
{
    if ls.len() == 0 {
        Seq::empty()
    } else {
        ls[0].push('\n') + spec_unlines(ls.drop_first())
    }
}

/// Whether `c` is one of the blank characters stripped by trimming.
pub open spec fn is_space_char(c: char) -> bool {
    c == ' ' || c == '\t' || c == '\n' || c == '\r'
}

pub open spec fn spec_trim_start(s: Seq<char>) -> Seq<char>
    decreases s.len(),
{
    if s.len() > 0 && is_space_char(s[0]) {
        spec_trim_start(s.drop_first())
    } else {
        s
    }
}

pub open spec fn spec_trim_end(s: Seq<char>) -> Seq<char>
    decreases s.len(),
{
    if s.len() > 0 && is_space_char(s.last()) {
        spec_trim_end(s.drop_last())
    } else {
        s
    }
}

/// `s` with blank characters removed from both ends.
pub open spec fn spec_trim(s: Seq<char>) -> Seq<char> {
    spec_trim_end(spec_trim_start(s))
}

fn is_space(c: char) -> (r: bool)
    ensures
        r == is_space_char(c),
{
    c == ' ' || c == '\t' || c == '\n' || c == '\r'
}

/// Index of the first character that is not blank.
fn first_non_space(s: &str, slen: usize) -> (a: usize)
    requires
        slen == s@.len(),
    ensures
        0 <= a <= slen,
        spec_trim_start(s@) == s@.skip(a as int),
{
    let mut a: usize = 0;
    proof {
        assert(s@.skip(0) =~= s@);
    }
    loop
        invariant
            slen == s@.len(),
            0 <= a <= slen,
            spec_trim_start(s@) == spec_trim_start(s@.skip(a as int)),
        decreases slen - a,
    {
        if a == slen {
            assert(s@.skip(a as int).len() == 0);
            return a;
        }
        if !is_space(s.get_char(a)) {
            assert(s@.skip(a as int)[0] == s@[a as int]);
            assert(spec_trim_start(s@.skip(a as int)) == s@.skip(a as int));
            return a;
        }
        proof {
            assert(s@.skip(a as int)[0] == s@[a as int]);
            assert(s@.skip(a as int).drop_first() =~= s@.skip(a + 1));
        }
        a += 1;
    }
}

/// End of the last character, at or after `a`, that is not blank.
fn last_non_space(s: &str, slen: usize, a: usize) -> (b: usize)
    requires
        slen == s@.len(),
        a <= slen,
    ensures
        a <= b <= slen,
        spec_trim_end(s@.skip(a as int)) == s@.subrange(a as int, b as int),
{
    let mut b: usize = slen;
    proof {
        assert(s@.skip(a as int) =~= s@.subrange(a as int, slen as int));
    }
    loop
        invariant
            slen == s@.len(),
            a <= b <= slen,
            spec_trim_end(s@.skip(a as int)) == spec_trim_end(s@.subrange(a as int, b as int)),
        decreases b,
    {
        let ghost cur = s@.subrange(a as int, b as int);
        if b == a {
            assert(spec_trim_end(cur) == cur);
            return b;
        }
        proof {
            assert(cur.last() == s@[b - 1]);
        }
        if !is_space(s.get_char(b - 1)) {
            assert(spec_trim_end(cur) == cur);
            return b;
        }
        proof {
            assert(cur.drop_last() =~= s@.subrange(a as int, b - 1));
        }
        b -= 1;
    }
}

/// `s` with blank characters removed from the start.
pub fn trim_start_str(s: &str) -> (r: String)
    ensures
        r@ == spec_trim_start(s@),
{
    let slen = s.unicode_len();
    let a = first_non_space(s, slen);
    String::from_str(s.substring_char(a, slen))
}

/// `s` with blank characters removed from both ends.
pub fn trim_str(s: &str) -> (r: String)
    ensures
        r@ == spec_trim(s@),
{
    let slen = s.unicode_len();
    let a = first_non_space(s, slen);
    let b = last_non_space(s, slen, a);
    proof {
        let cur = s@.subrange(a as int, b as int);
        assert(s@.skip(a as int).subrange(0, b - a) =~= cur);
    }
    let skipped = s.substring_char(a, slen);
    let r = skipped.substring_char(0, b - a);
    String::from_str(r)
}

/// Whether `c` is a decimal digit.
pub open spec fn is_dec_digit(c: char) -> bool {
    48 <= c as u32 <= 57
}

pub open spec fn all_dec_digits(s: Seq<char>) -> bool {
    forall|i: int| 0 <= i < s.len() ==> is_dec_digit(#[trigger] s[i])
}

/// The value of `s` read as a base-10 numeral.
pub open spec fn dec_value(s: Seq<char>) -> nat
    decreases s.len(),
{
    if s.len() == 0 {
        0
    } else {
        (dec_value(s.drop_last()) * 10 + (s.last() as u32 - 48)) as nat
    }
}

pub proof fn lemma_dec_value_prefix_le(s: Seq<char>, i: int)
    requires
        0 <= i <= s.len(),
        all_dec_digits(s),
    ensures
        dec_value(s.take(i)) <= dec_value(s),
    decreases s.len() - i,
{
    if i == s.len() {
        assert(s.take(i) =~= s);
    } else {
        lemma_dec_value_prefix_le(s, i + 1);
        let p = s.take(i + 1);
        assert(p.drop_last() =~= s.take(i));
        assert(dec_value(s.take(i)) <= dec_value(p));
    }
}

/// The numeric value of `s`, when `s` is a non-empty string of decimal digits
/// whose value fits the platform's word; `None` otherwise.
pub fn parse_usize_dec(s: &str) -> (r: Option<usize>)
    ensures
        match r {
            Some(n) => s@.len() > 0 && all_dec_digits(s@) && n == dec_value(s@),
            None => s@.len() == 0 || !all_dec_digits(s@) || dec_value(s@) > usize::MAX,
        },
{
    let slen = s.unicode_len();
    if slen == 0 {
        return None;
    }
    let mut val: usize = 0;
    let mut i: usize = 0;
    proof {
        assert(s@.take(0) =~= Seq::<char>::empty());
    }
    while i < slen
        invariant
            slen == s@.len(),
            0 <= i <= slen,
            all_dec_digits(s@.take(i as int)),
            val == dec_value(s@.take(i as int)),
        decreases slen - i,
    {
        let c = s.get_char(i);
        let d = c as u32;
        if d < 48 || d > 57 {
            assert(!is_dec_digit(s@[i as int]));
            return None;
        }
        let dd = (d - 48) as usize;
        if val > (usize::MAX - dd) / 10 {
            // The numeral exceeds the word size.
            proof {
                assert(s@.take(i + 1).drop_last() =~= s@.take(i as int));
                assert(s@.take(i + 1).last() == s@[i as int]);
                assert(dec_value(s@.take(i + 1)) == val * 10 + dd);
                assert(val * 10 + dd > usize::MAX) by (nonlinear_arith)
                    requires
                        val > (usize::MAX - dd) / 10,
                        0 <= dd <= 9,
                ;
                if all_dec_digits(s@) {
                    lemma_dec_value_prefix_le(s@, i + 1);
                }
            }
            return None;
        }
        proof {
            assert(val * 10 + dd <= usize::MAX) by (nonlinear_arith)
                requires
                    val <= (usize::MAX - dd) / 10,
                    0 <= dd <= 9,
            ;
            assert(s@.take(i + 1).drop_last() =~= s@.take(i as int));
            assert(s@.take(i + 1).last() == s@[i as int]);
        }
        val = val * 10 + dd;
        i += 1;
    }
    proof {
        assert(s@.take(slen as int) =~= s@);
    }
    Some(val)
}

/// Lexicographic order on character sequences, by scalar value.
pub open spec fn lex_le(a: Seq<char>, b: Seq<char>) -> bool
    decreases a.len(),
{
    if a.len() == 0 {
        true
    } else if b.len() == 0 {
        false
    } else if a[0] == b[0] {
        lex_le(a.drop_first(), b.drop_first())
    } else {
        (a[0] as u32) < (b[0] as u32)
    }
}

/// The lexicographic order is total.
pub proof fn lemma_lex_total(a: Seq<char>, b: Seq<char>)
    ensures
        lex_le(a, b) || lex_le(b, a),
    decreases a.len(),
{
    if a.len() == 0 || b.len() == 0 {
    } else if a[0] == b[0] {
        lemma_lex_total(a.drop_first(), b.drop_first());
    } else {
        let a0 = a[0];
        let b0 = b[0];
        assert(a0 != b0);
        lemma_char_cast_injective(a0, b0);
        if (a0 as u32) < (b0 as u32) {
        } else {
            assert((b0 as u32) < (a0 as u32));
        }
    }
}

/// Distinct characters have distinct scalar values.
proof fn lemma_char_cast_injective(x: char, y: char)
    requires
        x != y,
    ensures
        (x as u32) != (y as u32),
{
}

/// The lexicographic order is transitive.
pub proof fn lemma_lex_trans(a: Seq<char>, b: Seq<char>, c: Seq<char>)
    requires
        lex_le(a, b),
        lex_le(b, c),
    ensures
        lex_le(a, c),
    decreases a.len(),
{
    if a.len() == 0 {
    } else if b.len() == 0 {
    } else if c.len() == 0 {
    } else {
        if a[0] == b[0] && b[0] == c[0] {
            lemma_lex_trans(a.drop_first(), b.drop_first(), c.drop_first());
        }
    }
}

/// Two sequences each at most the other are equal.
pub proof fn lemma_lex_antisym(a: Seq<char>, b: Seq<char>)
    requires
        lex_le(a, b),
        lex_le(b, a),
    ensures
        a == b,
    decreases a.len(),
{
    if a.len() == 0 {
        assert(a =~= b);
    } else {
        assert(a[0] == b[0]);
        lemma_lex_antisym(a.drop_first(), b.drop_first());
        assert(a =~= seq![a[0]] + a.drop_first());
        assert(b =~= seq![b[0]] + b.drop_first());
    }
}

/// Whether `a` is lexicographically at most `b`.
pub fn str_lex_le(a: &str, b: &str) -> (r: bool)
    ensures
        r == lex_le(a@, b@),
{
    let alen = a.unicode_len();
    let blen = b.unicode_len();
    let mut i: usize = 0;
    proof {
        assert(a@.skip(0) =~= a@);
        assert(b@.skip(0) =~= b@);
    }
    loop
        invariant
            alen == a@.len(),
            blen == b@.len(),
            0 <= i <= alen,
            i <= blen,
            lex_le(a@, b@) == lex_le(a@.skip(i as int), b@.skip(i as int)),
        decreases alen - i,
    {
        if i == alen {
            assert(a@.skip(i as int).len() == 0);
            return true;
        }
        if i == blen {
            assert(b@.skip(i as int).len() == 0);
            return false;
        }
        let ca = a.get_char(i);
        let cb = b.get_char(i);
        if ca == cb {
            proof {
                assert(a@.skip(i as int).drop_first() =~= a@.skip(i + 1));
                assert(b@.skip(i as int).drop_first() =~= b@.skip(i + 1));
            }
            i += 1;
        } else {
            return (ca as u32) < (cb as u32);
        }
    }
}

/// Position of the first line feed in `s` at or after `i`.
fn find_nl_from(s: &str, i: usize, slen: usize) -> (r: Option<usize>)
    requires
        slen == s@.len(),
        i <= slen,
    ensures
        match r {
            Some(j) => i <= j < slen && s@[j as int] == '\n' && spec_find_from(
                s@,
                seq!['\n'],
                i as int,
            ) == Some(j as int),
            None => spec_find_from(s@, seq!['\n'], i as int) is None,
        },
{
    let mut j: usize = i;
    while j < slen
        invariant
            slen == s@.len(),
            i <= j <= slen,
            spec_find_from(s@, seq!['\n'], i as int) == spec_find_from(s@, seq!['\n'], j as int),
        decreases slen - j,
    {
        assert(match_at(s@, seq!['\n'], j as int) <==> s@[j as int] == '\n') by {
            if s@[j as int] == '\n' {
                assert(s@.subrange(j as int, j + 1) =~= seq!['\n']);
            } else {
                assert(s@.subrange(j as int, j + 1)[0] == s@[j as int]);
            }
        }
        if s.get_char(j) == '\n' {
            return Some(j);
        }
        assert(spec_find_from(s@, seq!['\n'], j as int) == spec_find_from(s@, seq!['\n'], j + 1));
        j += 1;
    }
    None
}

/// In a search for a line feed, a match position found in `s` at `j >= i`
/// corresponds to position `j - i` of the suffix starting at `i`.
proof fn lemma_find_shift(s: Seq<char>, i: int, j: int)
    requires
        0 <= i <= j <= s.len(),
        spec_find_from(s, seq!['\n'], i) == spec_find_from(s, seq!['\n'], j),
        j < s.len() ==> match_at(s, seq!['\n'], j),
        j == s.len() ==> spec_find_from(s, seq!['\n'], j) is None,
    ensures
        j < s.len() ==> spec_find(s.skip(i), seq!['\n']) == Some(j - i),
        j == s.len() ==> spec_find(s.skip(i), seq!['\n']) is None,
        s.skip(i).take(j - i) =~= s.subrange(i, j),
{
    lemma_find_from_shift_general(s, i, i);
    if j < s.len() {
        assert(spec_find_from(s, seq!['\n'], i) == Some(j));
    }
}

/// Searching in `s` from `k >= i` finds the same match, relative to `i`, as
/// searching in the suffix of `s` that starts at `i`.
proof fn lemma_find_from_shift_general(s: Seq<char>, i: int, k: int)
    requires
        0 <= i <= k <= s.len(),
    ensures
        match spec_find_from(s, seq!['\n'], k) {
            Some(j) => spec_find_from(s.skip(i), seq!['\n'], k - i) == Some(j - i),
            None => spec_find_from(s.skip(i), seq!['\n'], k - i) is None,
        },
    decreases s.len() - k,
{
    let pat = seq!['\n'];
    let t = s.skip(i);
    assert(t.len() == s.len() - i);
    if k + 1 > s.len() {
    } else {
        assert(match_at(s, pat, k) <==> match_at(t, pat, k - i)) by {
            assert(t.subrange(k - i, k - i + 1) =~= s.subrange(k, k + 1));
        }
        if match_at(s, pat, k) {
        } else {
            lemma_find_from_shift_general(s, i, k + 1);
        }
    }
}

} // verus!

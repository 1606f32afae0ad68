//! Character-level text utilities: trimming, substring search, line
//! splitting, and delimited extraction. Everything is specified over
//! `Seq<char>` views of `&str` values.

use vstd::prelude::*;
use vstd::string::{StrSliceExecFns, StringExecFns};

verus! {

/// The whitespace characters that trimming removes.
pub open spec fn is_space(c: char) -> bool {
    c == ' ' || c == '\t' || c == '\r' || c == '\n' || c == '\u{b}' || c == '\u{c}'
}

fn is_space_char(c: char) -> (b: bool)
    ensures
        b == is_space(c),
{
    c == ' ' || c == '\t' || c == '\r' || c == '\n' || c == '\u{b}' || c == '\u{c}'
}

/// `pat` occurs in `s` starting at position `i`.
pub open spec fn match_at(s: Seq<char>, pat: Seq<char>, i: int) -> bool {
    0 <= i && i + pat.len() <= s.len() && s.subrange(i, i + pat.len() as int) == pat
}

/// Position of the first occurrence of `pat` in `s` at or after `from`,
/// or -1 when there is none.
pub open spec fn find_from(s: Seq<char>, pat: Seq<char>, from: int) -> int
    decreases s.len() - from + 1,
{
    if from < 0 || from + pat.len() > s.len() {
        -1
    } else if s.subrange(from, from + pat.len() as int) == pat {
        from
    } else {
        find_from(s, pat, from + 1)
    }
}

/// `pat` occurs somewhere in `s`.
pub open spec fn has_sub(s: Seq<char>, pat: Seq<char>) -> bool {
    find_from(s, pat, 0) >= 0
}

/// `s` begins with `pat`.
pub open spec fn starts_with_spec(s: Seq<char>, pat: Seq<char>) -> bool {
    match_at(s, pat, 0)
}

/// `find_from` yields the first occurrence at or after `from`: a
/// non-negative result is a match position preceded by no other match at or
/// after `from`, and -1 means no position at or after `from` matches.
pub proof fn lemma_find_from_first(s: Seq<char>, pat: Seq<char>, from: int)
    requires
        0 <= from,
    ensures
        find_from(s, pat, from) >= 0 ==> from <= find_from(s, pat, from)
            && match_at(s, pat, find_from(s, pat, from))
            && (forall|j: int| from <= j < find_from(s, pat, from) ==> !match_at(s, pat, j)),
        find_from(s, pat, from) < 0 ==> (forall|j: int| from <= j ==> !match_at(s, pat, j)),
    decreases s.len() - from + 1,
{
    if from + pat.len() > s.len() {
    } else if s.subrange(from, from + pat.len() as int) == pat {
    } else {
        lemma_find_from_first(s, pat, from + 1);
    }
}

/// Checks whether `pat` occurs in `s` starting exactly at `i`.
fn str_match_at(s: &str, pat: &str, i: usize) -> (b: bool)
    requires
        i + pat@.len() <= s@.len(),
        s@.len() <= usize::MAX,
    ensures
        b == match_at(s@, pat@, i as int),
{
    let m = pat.unicode_len();
    let mut k: usize = 0;
    let mut mismatch = false;
    while k < m && !mismatch
        invariant
            k <= m,
            m == pat@.len(),
            i + m <= s@.len(),
            s@.len() <= usize::MAX,
            !mismatch ==> (forall|t: int| 0 <= t < k ==> s@[i + t] == pat@[t]),
            mismatch ==> k < m && s@[i + k] != pat@[k as int],
        decreases m - k + (if mismatch { 0int } else { 1int }),
    {
        if s.get_char(i + k) != pat.get_char(k) {
            mismatch = true;
        } else {
            k += 1;
        }
    }
    if mismatch {
        proof {
            assert(s@.subrange(i as int, i + m) [k as int] == s@[i + k]);
            assert(s@.subrange(i as int, i + m) != pat@);
        }
        false
    } else {
        proof {
            assert(s@.subrange(i as int, i + m) =~= pat@);
        }
        true
    }
}

/// Searches for the first occurrence of `pat` in `s` at or after `from`.
pub fn find_sub_from(s: &str, pat: &str, from: usize) -> (r: Option<usize>)
    ensures
        match r {
            Some(i) => from <= i && i as int == find_from(s@, pat@, from as int),
            None => find_from(s@, pat@, from as int) < 0,
        },
{
    let n = s.unicode_len();
    let m = pat.unicode_len();
    if m > n || from > n - m {
        return None;
    }
    if m == 0 {
        proof {
            assert(s@.subrange(from as int, from as int) =~= pat@);
        }
        return Some(from);
    }
    let mut i: usize = from;
    loop
        invariant
            from <= i,
            0 < m <= n,
            i <= n - m + 1,
            n == s@.len(),
            m == pat@.len(),
            find_from(s@, pat@, from as int) == find_from(s@, pat@, i as int),
        decreases n - m - i + 1,
    {
        if i > n - m {
            return None;
        }
        if str_match_at(s, pat, i) {
            proof {
                assert(s@.subrange(i as int, i + m) == pat@);
            }
            return Some(i);
        }
        i += 1;
    }
}

/// True when `s` and `t` hold the same characters.
pub fn str_eq_chars(s: &str, t: &str) -> (b: bool)
    ensures
        b == (s@ == t@),
{
    let n = s.unicode_len();
    if n != t.unicode_len() {
        return false;
    }
    let mut k: usize = 0;
    while k < n
        invariant
            k <= n,
            n == s@.len(),
            t@.len() == n,
            forall|j: int| 0 <= j < k ==> s@[j] == t@[j],
        decreases n - k,
    {
        if s.get_char(k) != t.get_char(k) {
            return false;
        }
        k += 1;
    }
    proof {
        assert(s@ =~= t@);
    }
    true
}

/// True when `s` begins with the characters of `pat`.
pub fn str_starts_with(s: &str, pat: &str) -> (b: bool)
    ensures
        b == starts_with_spec(s@, pat@),
{
    let n = s.unicode_len();
    let m = pat.unicode_len();
    if m > n {
        return false;
    }
    str_match_at(s, pat, 0)
}

/// True when `pat` occurs somewhere in `s`.
pub fn contains_sub(s: &str, pat: &str) -> (b: bool)
    ensures
        b == has_sub(s@, pat@),
{
    match find_sub_from(s, pat, 0) {
        Some(_) => true,
        None => false,
    }
}

/// Index of the first non-space character of `s` at or after `k`, or the
/// length of `s` when everything from `k` on is space.
pub open spec fn trim_start_from(s: Seq<char>, k: int) -> int
    decreases s.len() - k,
{
    if k < 0 || k >= s.len() {
        s.len() as int
    } else if is_space(s[k]) {
        trim_start_from(s, k + 1)
    } else {
        k
    }
}

/// One past the last non-space character of `s` strictly below `k`, or 0
/// when everything below `k` is space.
pub open spec fn trim_end_to(s: Seq<char>, k: int) -> int
    decreases k,
{
    if k <= 0 || k > s.len() {
        0
    } else if is_space(s[k - 1]) {
        trim_end_to(s, k - 1)
    } else {
        k
    }
}

/// `s` with leading and trailing space characters removed.
pub open spec fn trim_spec(s: Seq<char>) -> Seq<char> {
    let a = trim_start_from(s, 0);
    let b = trim_end_to(s, s.len() as int);
    if a < b {
        s.subrange(a, b)
    } else {
        Seq::empty()
    }
}

/// Removes leading and trailing space characters.
pub fn trim_chars<'a>(s: &'a str) -> (r: &'a str)
    ensures
        r@ == trim_spec(s@),
{
    let n = s.unicode_len();
    let mut a: usize = 0;
    let mut scanning = true;
    while scanning
        invariant
            a <= n,
            n == s@.len(),
            trim_start_from(s@, 0) == trim_start_from(s@, a as int),
            !scanning ==> a == n || !is_space(s@[a as int]),
        decreases n - a + (if scanning { 1int } else { 0int }),
    {
        if a < n {
            if is_space_char(s.get_char(a)) {
                a += 1;
            } else {
                scanning = false;
            }
        } else {
            scanning = false;
        }
    }
    let mut b: usize = n;
    let mut scanning_back = true;
    while scanning_back
        invariant
            b <= n,
            n == s@.len(),
            trim_end_to(s@, n as int) == trim_end_to(s@, b as int),
            !scanning_back ==> b == 0 || !is_space(s@[b - 1]),
        decreases b + (if scanning_back { 1int } else { 0int }),
    {
        if b > 0 {
            if is_space_char(s.get_char(b - 1)) {
                b -= 1;
            } else {
                scanning_back = false;
            }
        } else {
            scanning_back = false;
        }
    }
    if a < b {
        s.substring_char(a, b)
    } else {
        let r = s.substring_char(0, 0);
        proof {
            assert(r@ =~= trim_spec(s@));
        }
        r
    }
}

/// Index of the first line break in `s` at or after `k`, or the length of
/// `s` when there is none.
pub open spec fn line_break_from(s: Seq<char>, k: int) -> int
    decreases s.len() - k,
{
    if k < 0 || k >= s.len() {
        s.len() as int
    } else if s[k] == '\n' {
        k
    } else {
        line_break_from(s, k + 1)
    }
}

/// `line_break_from` stays within bounds and yields the first break.
pub proof fn lemma_line_break_from(s: Seq<char>, k: int)
    requires
        0 <= k <= s.len(),
    ensures
        k <= line_break_from(s, k) <= s.len(),
        forall|j: int| k <= j < line_break_from(s, k) ==> s[j] != '\n',
        line_break_from(s, k) < s.len() ==> s[line_break_from(s, k)] == '\n',
    decreases s.len() - k,
{
    if k < s.len() && s[k] != '\n' {
        lemma_line_break_from(s, k + 1);
    }
}

/// The lines of `s` from position `k` on, split at line breaks. A final
/// line break produces no trailing empty line.
pub open spec fn split_lines_from(s: Seq<char>, k: int) -> Seq<Seq<char>>
    decreases s.len() - k,
    via split_lines_from_decreases
{
    if k < 0 || k >= s.len() {
        Seq::empty()
    } else {
        let e = line_break_from(s, k);
        if e >= s.len() {
            seq![s.subrange(k, s.len() as int)]
        } else {
            seq![s.subrange(k, e)] + split_lines_from(s, e + 1)
        }
    }
}

#[via_fn]
proof fn split_lines_from_decreases(s: Seq<char>, k: int) {
    if 0 <= k < s.len() {
        lemma_line_break_from(s, k);
    }
}

/// The lines of `s`, in order.
pub open spec fn split_lines(s: Seq<char>) -> Seq<Seq<char>> {
    split_lines_from(s, 0)
}

/// Splits `s` into its lines.
pub fn split_lines_exec<'a>(s: &'a str) -> (r: Vec<&'a str>)
    ensures
        r@.map_values(|x: &str| x@) == split_lines(s@),
{
    let n = s.unicode_len();
    let mut out: Vec<&'a str> = Vec::new();
    let mut k: usize = 0;
    while k < n
        invariant
            k <= n,
            n == s@.len(),
            out@.map_values(|x: &str| x@) + split_lines_from(s@, k as int) == split_lines(s@),
        decreases n - k,
    {
        let mut e: usize = k;
        let mut scanning = true;
        while scanning
            invariant
                k <= e <= n,
                n == s@.len(),
                line_break_from(s@, k as int) == line_break_from(s@, e as int),
                !scanning ==> e == n || s@[e as int] == '\n',
            decreases n - e + (if scanning { 1int } else { 0int }),
        {
            if e < n {
                if s.get_char(e) == '\n' {
                    scanning = false;
                } else {
                    e += 1;
                }
            } else {
                scanning = false;
            }
        }
        let ghost prev = out@.map_values(|x: &str| x@);
        let ghost k0 = k as int;
        let line = s.substring_char(k, e);
        out.push(line);
        proof {
            assert(line_break_from(s@, k0) == e as int);
            assert(out@.map_values(|x: &str| x@) =~= prev.push(line@));
        }
        if e == n {
            proof {
                assert(split_lines_from(s@, k0) =~= seq![line@]);
                assert(prev.push(line@) + split_lines_from(s@, n as int) =~= prev
                    + split_lines_from(s@, k0));
            }
            k = n;
        } else {
            proof {
                assert(split_lines_from(s@, k0) =~= seq![line@] + split_lines_from(s@, e + 1));
                assert(prev.push(line@) + split_lines_from(s@, e + 1) =~= prev
                    + split_lines_from(s@, k0));
            }
            k = e + 1;
        }
    }
    proof {
        assert(out@.map_values(|x: &str| x@) =~= split_lines(s@));
    }
    out
}

/// The text between the first occurrence of `open` and the first occurrence
/// of `close` after it; `None` when either delimiter is absent.
pub open spec fn extract_between_spec(
    s: Seq<char>,
    open: Seq<char>,
    close: Seq<char>,
) -> Option<Seq<char>> {
    let i = find_from(s, open, 0);
    if i < 0 {
        None
    } else {
        let start = i + open.len() as int;
        let j = find_from(s, close, start);
        if j < 0 {
            None
        } else {
            Some(s.subrange(start, j))
        }
    }
}

/// Extracts the text between the first occurrence of `open` and the first
/// occurrence of `close` found after it. Absence of either delimiter is not
/// an error: the result is simply `None`.
pub fn extract_between(s: &str, open: &str, close: &str) -> (r: Option<String>)
    ensures
        match r {
            Some(m) => extract_between_spec(s@, open@, close@) == Some(m@),
            None => extract_between_spec(s@, open@, close@) is None,
        },
{
    match find_sub_from(s, open, 0) {
        None => None,
        Some(i) => {
            let _len = s.unicode_len();
            proof {
                lemma_find_from_first(s@, open@, 0);
            }
            let start = i + open.unicode_len();
            match find_sub_from(s, close, start) {
                None => None,
                Some(j) => {
                    proof {
                        lemma_find_from_first(s@, close@, start as int);
                    }
                    Some(s.substring_char(start, j).to_owned())
                },
            }
        },
    }
}

/// When `pat` matches at `n` and nowhere in `[from, n)`, the search finds
/// exactly `n`.
pub proof fn lemma_find_from_unique(s: Seq<char>, pat: Seq<char>, from: int, n: int)
    requires
        0 <= from <= n,
        match_at(s, pat, n),
        forall|j: int| from <= j < n ==> !match_at(s, pat, j),
    ensures
        find_from(s, pat, from) == n,
    decreases n - from,
{
    if from < n {
        assert(!match_at(s, pat, from));
        assert(from + pat.len() <= s.len());
        assert(s.subrange(from, from + pat.len() as int) != pat);
        lemma_find_from_unique(s, pat, from + 1, n);
    } else {
        assert(s.subrange(n, n + pat.len() as int) == pat);
    }
}

/// Searching a suffix of `s` from its start agrees with searching `s`
/// itself from the suffix's offset.
pub proof fn lemma_find_from_shift(s: Seq<char>, pat: Seq<char>, pos: int)
    requires
        0 <= pos <= s.len(),
    ensures
        ({
            let suffix = s.subrange(pos, s.len() as int);
            let i = find_from(s, pat, pos);
            &&& i < 0 ==> find_from(suffix, pat, 0) < 0
            &&& i >= 0 ==> find_from(suffix, pat, 0) == i - pos
        }),
{
    let suffix = s.subrange(pos, s.len() as int);
    assert forall|j: int| 0 <= j && j + pat.len() <= suffix.len() implies (match_at(
        suffix,
        pat,
        j,
    ) == match_at(s, pat, pos + j)) by {
        assert(suffix.subrange(j, j + pat.len() as int) =~= s.subrange(
            pos + j,
            pos + j + pat.len() as int,
        ));
    }
    lemma_find_from_first(s, pat, pos);
    lemma_find_from_first(suffix, pat, 0);
    let i = find_from(s, pat, pos);
    if i < 0 {
    } else {
        lemma_find_from_unique(suffix, pat, 0, i - pos);
    }
}

/// `s` with every occurrence of `from` replaced by `to`, scanning left to
/// right without overlap. An empty search pattern replaces nothing.
pub open spec fn replace_spec(s: Seq<char>, from: Seq<char>, to: Seq<char>) -> Seq<char>
    decreases s.len(),
    via replace_spec_decreases
{
    if from.len() == 0 {
        s
    } else {
        let i = find_from(s, from, 0);
        if i < 0 {
            s
        } else {
            s.subrange(0, i) + to + replace_spec(
                s.subrange(i + from.len() as int, s.len() as int),
                from,
                to,
            )
        }
    }
}

#[via_fn]
proof fn replace_spec_decreases(s: Seq<char>, from: Seq<char>, to: Seq<char>) {
    lemma_find_from_first(s, from, 0);
}

/// Replaces every occurrence of `from` in `s` with `to`, scanning left to
/// right without overlap.
pub fn replace_all(s: &str, from: &str, to: &str) -> (r: String)
    requires
        from@.len() > 0,
    ensures
        r@ == replace_spec(s@, from@, to@),
{
    let n = s.unicode_len();
    let m = from.unicode_len();
    let mut out = String::new();
    let mut pos: usize = 0;
    proof {
        assert(s@.subrange(0, n as int) =~= s@);
        assert(out@ + replace_spec(s@, from@, to@) =~= replace_spec(s@, from@, to@));
    }
    loop
        invariant
            pos <= n,
            n == s@.len(),
            m == from@.len(),
            m > 0,
            replace_spec(s@, from@, to@) == out@ + replace_spec(
                s@.subrange(pos as int, n as int),
                from@,
                to@,
            ),
        decreases n - pos,
    {
        let ghost suffix = s@.subrange(pos as int, n as int);
        match find_sub_from(s, from, pos) {
            Some(i) => {
                proof {
                    lemma_find_from_first(s@, from@, pos as int);
                    lemma_find_from_shift(s@, from@, pos as int);
                }
                let ghost out0 = out@;
                out.append(s.substring_char(pos, i));
                out.append(to);
                proof {
                    let tail = s@.subrange(i + m, n as int);
                    assert(suffix.subrange(0, i - pos) =~= s@.subrange(pos as int, i as int));
                    assert(suffix.subrange(i - pos + m, suffix.len() as int) =~= tail);
                    assert(replace_spec(suffix, from@, to@) == suffix.subrange(0, i - pos) + to@
                        + replace_spec(tail, from@, to@));
                    assert(out@ + replace_spec(tail, from@, to@) =~= out0 + replace_spec(
                        suffix,
                        from@,
                        to@,
                    ));
                }
                pos = i + m;
            },
            None => {
                proof {
                    lemma_find_from_shift(s@, from@, pos as int);
                    assert(replace_spec(suffix, from@, to@) == suffix);
                }
                let ghost out0 = out@;
                out.append(s.substring_char(pos, n));
                proof {
                    assert(out@ =~= out0 + suffix);
                }
                return out;
            },
        }
    }
}

/// Extraction takes the first opening delimiter and the first closing
/// delimiter after it: when extraction succeeds, no earlier position holds
/// the opening delimiter, and no position between the opening delimiter and
/// the chosen closing delimiter holds the closing delimiter.
pub proof fn lemma_extract_between_first(s: Seq<char>, open: Seq<char>, close: Seq<char>)
    ensures
        extract_between_spec(s, open, close) is Some ==> {
            let i = find_from(s, open, 0);
            let start = i + open.len() as int;
            let j = find_from(s, close, start);
            &&& match_at(s, open, i)
            &&& (forall|k: int| 0 <= k < i ==> !match_at(s, open, k))
            &&& match_at(s, close, j)
            &&& (forall|k: int| start <= k < j ==> !match_at(s, close, k))
            &&& extract_between_spec(s, open, close) == Some(s.subrange(start, j))
        },
{
    lemma_find_from_first(s, open, 0);
    let i = find_from(s, open, 0);
    if i >= 0 {
        lemma_find_from_first(s, close, i + open.len() as int);
    }
}

} // verus!

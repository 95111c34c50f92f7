//! Character and line primitives shared by the scanner, the classifier and
//! the formatter: ASCII case folding, substring search, trimming, and
//! conversions between `String` and lines of characters.

use vstd::prelude::*;
use vstd::string::StrSliceExecFns;

verus! {

/// ASCII whitespace as the line scanners understand it.
pub open spec fn is_ws(c: char) -> bool {
    c == ' ' || c == '\t' || c == '\r'
}

pub open spec fn is_upper(c: char) -> bool {
    65 <= c as u32 && c as u32 <= 90
}

/// ASCII lower-casing of a single character; other characters are unchanged.
pub open spec fn lower_char(c: char) -> char {
    if is_upper(c) {
        (c as u32 + 32) as char
    } else {
        c
    }
}

/// ASCII lower-casing of a whole line.
pub open spec fn lower(s: Seq<char>) -> Seq<char> {
    s.map(|_i: int, c: char| lower_char(c))
}

pub fn exec_is_ws(c: char) -> (r: bool)
    ensures
        r == is_ws(c),
{
    c == ' ' || c == '\t' || c == '\r'
}

pub fn to_lower(v: &Vec<char>) -> (r: Vec<char>)
    ensures
        r@ == lower(v@),
{
    let mut r: Vec<char> = Vec::new();
    let mut i: usize = 0;
    while i < v.len()
        invariant
            i <= v.len(),
            r@ == lower(v@.take(i as int)),
        decreases v.len() - i,
    {
        let c = v[i];
        let u = c as u32;
        let lc: char = if 65 <= u && u <= 90 {
            ((u + 32) as u8) as char
        } else {
            c
        };
        assert(lc == lower_char(c));
        r.push(lc);
        assert(lower(v@.take(i as int + 1)) =~= lower(v@.take(i as int)).push(lower_char(c)));
        i = i + 1;
    }
    assert(v@.take(v.len() as int) =~= v@);
    r
}

/// The pattern occurs in `s` starting at index `i`.
pub open spec fn match_at(s: Seq<char>, pat: Seq<char>, i: int) -> bool {
    0 <= i && i + pat.len() <= s.len() && s.subrange(i, i + pat.len() as int) == pat
}

/// The pattern occurs somewhere in `s`.
pub open spec fn contains_seq(s: Seq<char>, pat: Seq<char>) -> bool {
    exists|i: int| match_at(s, pat, i)
}

pub fn match_at_exec(v: &Vec<char>, pat: &Vec<char>, i: usize) -> (r: bool)
    requires
        i + pat@.len() <= v@.len(),
    ensures
        r == match_at(v@, pat@, i as int),
{
    let n = v.len();
    let mut j: usize = 0;
    while j < pat.len()
        invariant
            j <= pat.len(),
            n == v@.len(),
            i + pat@.len() <= v@.len(),
            forall|k: int| 0 <= k < j ==> v@[i + k] == pat@[k],
        decreases pat.len() - j,
    {
        if v[i + j] != pat[j] {
            assert(v@.subrange(i as int, i + pat.len() as int)[j as int] != pat@[j as int]);
            return false;
        }
        j = j + 1;
    }
    assert(v@.subrange(i as int, i + pat.len() as int) =~= pat@);
    true
}

pub fn contains_vec(v: &Vec<char>, pat: &Vec<char>) -> (r: bool)
    ensures
        r == contains_seq(v@, pat@),
{
    if pat.len() > v.len() {
        assert(forall|i: int| !match_at(v@, pat@, i));
        return false;
    }
    if pat.len() == 0 {
        assert(match_at(v@, pat@, 0)) by {
            assert(v@.subrange(0, 0) =~= pat@);
        }
        return true;
    }
    let n = v.len();
    let mut i: usize = 0;
    while i <= n - pat.len()
        invariant
            n == v@.len(),
            1 <= pat@.len() <= v@.len(),
            i <= v@.len() - pat@.len() + 1,
            forall|k: int| 0 <= k < i ==> !match_at(v@, pat@, k),
        decreases v.len() + 1 - i,
    {
        if match_at_exec(v, pat, i) {
            return true;
        }
        i = i + 1;
    }
    assert(forall|k: int| !match_at(v@, pat@, k));
    false
}

/// Builds the character line of a borrowed string slice.
pub fn to_chars(s: &str) -> (r: Vec<char>)
    ensures
        r@ == s@,
{
    let n = s.unicode_len();
    let mut r: Vec<char> = Vec::new();
    let mut i: usize = 0;
    while i < n
        invariant
            n == s@.len(),
            i <= n,
            r@ == s@.take(i as int),
        decreases n - i,
    {
        r.push(s.get_char(i));
        assert(s@.take(i as int + 1) =~= s@.take(i as int).push(s@[i as int]));
        i = i + 1;
    }
    assert(s@.take(n as int) =~= s@);
    r
}

/// The pattern, given as a string literal, occurs somewhere in `v`.
pub fn contains_str(v: &Vec<char>, pat: &str) -> (r: bool)
    ensures
        r == contains_seq(v@, pat@),
{
    let p = to_chars(pat);
    contains_vec(v, &p)
}

pub fn contains_char(v: &Vec<char>, c: char) -> (r: bool)
    ensures
        r == v@.contains(c),
{
    let mut i: usize = 0;
    while i < v.len()
        invariant
            i <= v.len(),
            forall|k: int| 0 <= k < i ==> v@[k] != c,
        decreases v.len() - i,
    {
        if v[i] == c {
            return true;
        }
        i = i + 1;
    }
    false
}

/// The two lines hold the same characters.
pub fn eq_vec(a: &Vec<char>, b: &Vec<char>) -> (r: bool)
    ensures
        r == (a@ == b@),
{
    if a.len() != b.len() {
        return false;
    }
    let mut i: usize = 0;
    while i < a.len()
        invariant
            a@.len() == b@.len(),
            i <= a.len(),
            forall|k: int| 0 <= k < i ==> a@[k] == b@[k],
        decreases a.len() - i,
    {
        if a[i] != b[i] {
            return false;
        }
        i = i + 1;
    }
    assert(a@ =~= b@);
    true
}

pub fn eq_str(a: &Vec<char>, b: &str) -> (r: bool)
    ensures
        r == (a@ == b@),
{
    let p = to_chars(b);
    eq_vec(a, &p)
}

/// A fresh line holding `v[from..to]`.
pub fn subvec(v: &Vec<char>, from: usize, to: usize) -> (r: Vec<char>)
    requires
        from <= to <= v@.len(),
    ensures
        r@ == v@.subrange(from as int, to as int),
{
    let mut r: Vec<char> = Vec::new();
    let mut i: usize = from;
    while i < to
        invariant
            from <= i <= to <= v@.len(),
            r@ == v@.subrange(from as int, i as int),
        decreases to - i,
    {
        r.push(v[i]);
        assert(v@.subrange(from as int, i as int + 1) =~= v@.subrange(
            from as int,
            i as int,
        ).push(v@[i as int]));
        i = i + 1;
    }
    r
}

pub open spec fn trim_start_spec(s: Seq<char>) -> Seq<char>
    decreases s.len(),
{
    if s.len() > 0 && is_ws(s[0]) {
        trim_start_spec(s.drop_first())
    } else {
        s
    }
}

pub open spec fn trim_end_spec(s: Seq<char>) -> Seq<char>
    decreases s.len(),
{
    if s.len() > 0 && is_ws(s.last()) {
        trim_end_spec(s.drop_last())
    } else {
        s
    }
}

/// Both ends trimmed of ASCII whitespace.
pub open spec fn trim_spec(s: Seq<char>) -> Seq<char> {
    trim_end_spec(trim_start_spec(s))
}

proof fn lemma_trim_start_at(s: Seq<char>, j: int)
    requires
        0 <= j <= s.len(),
        forall|k: int| 0 <= k < j ==> is_ws(s[k]),
        j == s.len() || !is_ws(s[j]),
    ensures
        trim_start_spec(s) == s.skip(j),
    decreases j,
{
    if j == 0 {
        assert(s.skip(0) =~= s);
    } else {
        assert(is_ws(s[0]));
        lemma_trim_start_at(s.drop_first(), j - 1);
        assert(s.drop_first().skip(j - 1) =~= s.skip(j));
    }
}

proof fn lemma_trim_end_at(s: Seq<char>, j: int)
    requires
        0 <= j <= s.len(),
        forall|k: int| j <= k < s.len() ==> is_ws(s[k]),
        j == 0 || !is_ws(s[j - 1]),
    ensures
        trim_end_spec(s) == s.take(j),
    decreases s.len(),
{
    if j < s.len() {
        assert(is_ws(s.last()));
        lemma_trim_end_at(s.drop_last(), j);
    } else {
        assert(s.take(j) =~= s);
        if j > 0 {
            assert(!is_ws(s.last()));
        }
    }
}

pub fn trim_end(v: &Vec<char>) -> (r: Vec<char>)
    ensures
        r@ == trim_end_spec(v@),
{
    let mut j: usize = v.len();
    while j > 0 && exec_is_ws(v[j - 1])
        invariant
            j <= v.len(),
            forall|k: int| j <= k < v@.len() ==> is_ws(v@[k]),
        decreases j,
    {
        j = j - 1;
    }
    proof {
        lemma_trim_end_at(v@, j as int);
    }
    subvec(v, 0, j)
}

pub fn trim(v: &Vec<char>) -> (r: Vec<char>)
    ensures
        r@ == trim_spec(v@),
{
    let mut i: usize = 0;
    while i < v.len() && exec_is_ws(v[i])
        invariant
            i <= v.len(),
            forall|k: int| 0 <= k < i ==> is_ws(v@[k]),
        decreases v.len() - i,
    {
        i = i + 1;
    }
    proof {
        lemma_trim_start_at(v@, i as int);
    }
    let mut j: usize = v.len();
    while j > i && exec_is_ws(v[j - 1])
        invariant
            i <= j <= v.len(),
            forall|k: int| j <= k < v@.len() ==> is_ws(v@[k]),
        decreases j,
    {
        j = j - 1;
    }
    proof {
        if j == i {
            lemma_trim_end_at(v@.skip(i as int), 0);
        } else {
            lemma_trim_end_at(v@.skip(i as int), j - i as int);
        }
        assert(v@.skip(i as int).take(j - i as int) =~= v@.subrange(i as int, j as int));
    }
    subvec(v, i, j)
}

/// Index of the first occurrence of `c` in `s`, or `s.len()` when absent.
pub open spec fn find_char(s: Seq<char>, c: char) -> int
    decreases s.len(),
{
    if s.len() == 0 {
        0
    } else if s[0] == c {
        0
    } else {
        1 + find_char(s.drop_first(), c)
    }
}

pub proof fn lemma_find_char(s: Seq<char>, c: char)
    ensures
        0 <= find_char(s, c) <= s.len(),
        find_char(s, c) < s.len() ==> s[find_char(s, c)] == c,
        forall|k: int| 0 <= k < find_char(s, c) ==> s[k] != c,
    decreases s.len(),
{
    if s.len() > 0 && s[0] != c {
        lemma_find_char(s.drop_first(), c);
        assert forall|k: int| 0 <= k < find_char(s, c) implies s[k] != c by {
            if k >= 1 {
                assert(s.drop_first()[k - 1] != c);
            }
        }
    }
}

pub proof fn lemma_find_char_is(s: Seq<char>, c: char, j: int)
    requires
        0 <= j <= s.len(),
        forall|k: int| 0 <= k < j ==> s[k] != c,
        j == s.len() || s[j] == c,
    ensures
        find_char(s, c) == j,
    decreases j,
{
    if j == 0 {
    } else {
        assert(s[0] != c);
        lemma_find_char_is(s.drop_first(), c, j - 1);
    }
}

/// First index `>= from` holding `c`, or the line's length when absent.
pub fn find_char_from(v: &Vec<char>, c: char, from: usize) -> (j: usize)
    requires
        from <= v@.len(),
    ensures
        from <= j <= v@.len(),
        forall|k: int| from <= k < j ==> v@[k] != c,
        j < v@.len() ==> v@[j as int] == c,
{
    let mut j = from;
    while j < v.len()
        invariant
            from <= j <= v@.len(),
            forall|k: int| from <= k < j ==> v@[k] != c,
        decreases v.len() - j,
    {
        if v[j] == c {
            return j;
        }
        j = j + 1;
    }
    j
}

/// The line split on a separator character, empty pieces kept, as
/// `str::split(c)` yields them.  The result is never empty.
pub open spec fn split_char(s: Seq<char>, c: char) -> Seq<Seq<char>>
    decreases s.len(),
    via split_char_decreases
{
    let i = find_char(s, c);
    if i == s.len() {
        seq![s]
    } else {
        seq![s.take(i)] + split_char(s.skip(i + 1), c)
    }
}

#[via_fn]
proof fn split_char_decreases(s: Seq<char>, c: char) {
    lemma_find_char(s, c);
}

/// The line split on single spaces.
pub open spec fn split_sp(s: Seq<char>) -> Seq<Seq<char>> {
    split_char(s, ' ')
}

pub proof fn lemma_split_char_len(s: Seq<char>, c: char)
    ensures
        split_char(s, c).len() >= 1,
{
    lemma_find_char(s, c);
}

pub fn split_char_exec(v: &Vec<char>, c: char) -> (r: Vec<Vec<char>>)
    ensures
        r.deep_view() == split_char(v@, c),
        r@.len() >= 1,
{
    let mut r: Vec<Vec<char>> = Vec::new();
    let mut start: usize = 0;
    proof {
        assert(v@.skip(0) =~= v@);
        assert(r.deep_view() =~~= Seq::<Seq<char>>::empty());
        assert(r.deep_view() + split_char(v@, c) =~~= split_char(v@, c));
    }
    loop
        invariant
            start <= v@.len(),
            split_char(v@, c) == r.deep_view() + split_char(v@.skip(start as int), c),
        decreases v@.len() - start,
    {
        let j = find_char_from(v, c, start);
        let tok = subvec(v, start, j);
        let ghost rest = v@.skip(start as int);
        let ghost pre = r.deep_view();
        proof {
            lemma_find_char_is(rest, c, j - start as int);
            assert(rest.take(j - start as int) =~= v@.subrange(start as int, j as int));
        }
        r.push(tok);
        proof {
            assert(r.deep_view() =~~= pre.push(tok@));
        }
        if j < v.len() {
            proof {
                assert(rest.skip(j - start as int + 1) =~= v@.skip(j + 1));
                assert(split_char(rest, c) == seq![tok@] + split_char(v@.skip(j + 1), c));
                assert(pre + split_char(rest, c) =~~= pre.push(tok@) + split_char(v@.skip(j + 1), c));
            }
            start = j + 1;
        } else {
            proof {
                assert(rest.take(j - start as int) =~= rest);
                assert(split_char(rest, c) == seq![rest]);
                assert(pre + split_char(rest, c) =~~= pre.push(tok@));
                assert(split_char(v@, c) == r.deep_view());
                lemma_split_char_len(v@, c);
            }
            return r;
        }
    }
}

pub fn split_sp_exec(v: &Vec<char>) -> (r: Vec<Vec<char>>)
    ensures
        r.deep_view() == split_sp(v@),
        r@.len() >= 1,
{
    split_char_exec(v, ' ')
}

/// First index holding ASCII whitespace, or the line's length when absent.
pub open spec fn find_ws(s: Seq<char>) -> int
    decreases s.len(),
{
    if s.len() == 0 {
        0
    } else if is_ws(s[0]) {
        0
    } else {
        1 + find_ws(s.drop_first())
    }
}

/// The first whitespace-delimited token of the line; empty when the line is
/// blank.
pub open spec fn first_token(s: Seq<char>) -> Seq<char> {
    let t = trim_start_spec(s);
    t.take(find_ws(t))
}

pub proof fn lemma_find_ws_is(s: Seq<char>, j: int)
    requires
        0 <= j <= s.len(),
        forall|k: int| 0 <= k < j ==> !is_ws(s[k]),
        j == s.len() || is_ws(s[j]),
    ensures
        find_ws(s) == j,
    decreases j,
{
    if j > 0 {
        lemma_find_ws_is(s.drop_first(), j - 1);
    }
}

pub fn first_token_exec(v: &Vec<char>) -> (r: Vec<char>)
    ensures
        r@ == first_token(v@),
{
    let mut i: usize = 0;
    while i < v.len() && exec_is_ws(v[i])
        invariant
            i <= v.len(),
            forall|k: int| 0 <= k < i ==> is_ws(v@[k]),
        decreases v.len() - i,
    {
        i = i + 1;
    }
    proof {
        lemma_trim_start_at(v@, i as int);
    }
    let mut j: usize = i;
    while j < v.len() && !exec_is_ws(v[j])
        invariant
            i <= j <= v.len(),
            forall|k: int| i <= k < j ==> !is_ws(v@[k]),
        decreases v.len() - j,
    {
        j = j + 1;
    }
    proof {
        lemma_find_ws_is(v@.skip(i as int), j - i as int);
        assert(v@.skip(i as int).take(j - i as int) =~= v@.subrange(i as int, j as int));
    }
    subvec(v, i, j)
}

/// The line begins with the pattern.
pub open spec fn starts_with(s: Seq<char>, p: Seq<char>) -> bool {
    p.len() <= s.len() && s.take(p.len() as int) == p
}

/// The line ends with the pattern.
pub open spec fn ends_with(s: Seq<char>, p: Seq<char>) -> bool {
    p.len() <= s.len() && s.skip(s.len() - p.len()) == p
}

pub fn starts_with_str(v: &Vec<char>, p: &str) -> (r: bool)
    ensures
        r == starts_with(v@, p@),
{
    let pat = to_chars(p);
    if pat.len() > v.len() {
        return false;
    }
    let r = match_at_exec(v, &pat, 0);
    proof {
        assert(v@.subrange(0, pat@.len() as int) =~= v@.take(pat@.len() as int));
    }
    r
}

pub fn starts_with_vec(v: &Vec<char>, p: &Vec<char>) -> (r: bool)
    ensures
        r == starts_with(v@, p@),
{
    if p.len() > v.len() {
        return false;
    }
    let r = match_at_exec(v, p, 0);
    proof {
        assert(v@.subrange(0, p@.len() as int) =~= v@.take(p@.len() as int));
    }
    r
}

pub fn ends_with_str(v: &Vec<char>, p: &str) -> (r: bool)
    ensures
        r == ends_with(v@, p@),
{
    let pat = to_chars(p);
    if pat.len() > v.len() {
        return false;
    }
    let r = match_at_exec(v, &pat, v.len() - pat.len());
    proof {
        assert(v@.subrange(v@.len() - pat@.len(), v@.len() - pat@.len() + pat@.len() as int) =~= v@.skip(
            v@.len() - pat@.len(),
        ));
    }
    r
}

/// The whitespace-delimited tokens of the line, as `str::split_whitespace`
/// yields them: no empty tokens.
pub open spec fn ws_tokens(s: Seq<char>) -> Seq<Seq<char>>
    decreases s.len(),
    via ws_tokens_decreases
{
    let t = trim_start_spec(s);
    if t.len() == 0 {
        Seq::empty()
    } else {
        seq![t.take(find_ws(t))] + ws_tokens(t.skip(find_ws(t)))
    }
}

pub proof fn lemma_find_ws_bounds(s: Seq<char>)
    ensures
        0 <= find_ws(s) <= s.len(),
        find_ws(s) < s.len() ==> is_ws(s[find_ws(s)]),
        forall|k: int| 0 <= k < find_ws(s) ==> !is_ws(s[k]),
    decreases s.len(),
{
    if s.len() > 0 && !is_ws(s[0]) {
        lemma_find_ws_bounds(s.drop_first());
        assert forall|k: int| 0 <= k < find_ws(s) implies !is_ws(s[k]) by {
            if k >= 1 {
                assert(!is_ws(s.drop_first()[k - 1]));
            }
        }
    }
}

proof fn lemma_trim_start_len(s: Seq<char>)
    ensures
        trim_start_spec(s).len() <= s.len(),
    decreases s.len(),
{
    if s.len() > 0 && is_ws(s[0]) {
        lemma_trim_start_len(s.drop_first());
    }
}

proof fn lemma_trim_start_head(s: Seq<char>)
    ensures
        trim_start_spec(s).len() > 0 ==> !is_ws(trim_start_spec(s)[0]),
    decreases s.len(),
{
    if s.len() > 0 && is_ws(s[0]) {
        lemma_trim_start_head(s.drop_first());
    }
}

#[via_fn]
proof fn ws_tokens_decreases(s: Seq<char>) {
    let t = trim_start_spec(s);
    lemma_trim_start_len(s);
    lemma_trim_start_head(s);
    if t.len() > 0 {
        lemma_find_ws_bounds(t);
        assert(find_ws(t) >= 1);
    }
}

pub fn ws_tokens_exec(v: &Vec<char>) -> (r: Vec<Vec<char>>)
    ensures
        r.deep_view() == ws_tokens(v@),
{
    let mut r: Vec<Vec<char>> = Vec::new();
    let mut start: usize = 0;
    proof {
        assert(v@.skip(0) =~= v@);
        assert(r.deep_view() =~~= Seq::<Seq<char>>::empty());
        assert(r.deep_view() + ws_tokens(v@) =~~= ws_tokens(v@));
    }
    loop
        invariant
            start <= v@.len(),
            ws_tokens(v@) == r.deep_view() + ws_tokens(v@.skip(start as int)),
        decreases v@.len() - start,
    {
        // skip whitespace
        let mut i: usize = start;
        while i < v.len() && exec_is_ws(v[i])
            invariant
                start <= i <= v@.len(),
                forall|k: int| start <= k < i ==> is_ws(v@[k]),
            decreases v.len() - i,
        {
            i = i + 1;
        }
        let ghost rest = v@.skip(start as int);
        proof {
            lemma_trim_start_at(rest, i - start as int);
            assert(rest.skip(i - start as int) =~= v@.skip(i as int));
        }
        if i == v.len() {
            proof {
                assert(trim_start_spec(rest) =~= Seq::<char>::empty());
                assert(ws_tokens(rest) =~~= Seq::<Seq<char>>::empty());
                assert(r.deep_view() + ws_tokens(rest) =~~= r.deep_view());
            }
            return r;
        }
        // take the token
        let mut j: usize = i;
        while j < v.len() && !exec_is_ws(v[j])
            invariant
                i <= j <= v@.len(),
                forall|k: int| i <= k < j ==> !is_ws(v@[k]),
            decreases v.len() - j,
        {
            j = j + 1;
        }
        let ghost t = trim_start_spec(rest);
        let tok = subvec(v, i, j);
        let ghost pre = r.deep_view();
        proof {
            assert(t =~= v@.skip(i as int));
            lemma_find_ws_is(t, j - i as int);
            assert(t.take(j - i as int) =~= v@.subrange(i as int, j as int));
            assert(t.skip(j - i as int) =~= v@.skip(j as int));
            assert(t.len() > 0);
            assert(ws_tokens(rest) == seq![tok@] + ws_tokens(v@.skip(j as int)));
        }
        r.push(tok);
        proof {
            assert(r.deep_view() =~~= pre.push(tok@));
            assert(pre + ws_tokens(rest) =~~= pre.push(tok@) + ws_tokens(v@.skip(j as int)));
        }
        start = j;
    }
}

/// Index of the last occurrence of the pattern in `s`, or -1 when absent.
pub open spec fn rfind_seq(s: Seq<char>, pat: Seq<char>) -> int
    decreases s.len(),
{
    if s.len() < pat.len() {
        -1
    } else if pat.len() == 0 {
        s.len() as int
    } else if match_at(s, pat, s.len() - pat.len()) {
        s.len() - pat.len()
    } else {
        rfind_seq(s.drop_last(), pat)
    }
}

proof fn lemma_match_drop_last(s: Seq<char>, pat: Seq<char>, i: int)
    requires
        0 <= i,
        i + pat.len() < s.len(),
    ensures
        match_at(s.drop_last(), pat, i) == match_at(s, pat, i),
{
    assert(s.drop_last().subrange(i, i + pat.len() as int) =~= s.subrange(i, i + pat.len() as int));
}

proof fn lemma_rfind_is(s: Seq<char>, pat: Seq<char>, j: int)
    requires
        0 <= j,
        match_at(s, pat, j),
        forall|k: int| j < k ==> !match_at(s, pat, k),
    ensures
        rfind_seq(s, pat) == j,
    decreases s.len(),
{
    if pat.len() == 0 {
        if j < s.len() {
            assert(s.subrange(s.len() as int, s.len() as int) =~= pat);
            assert(match_at(s, pat, s.len() as int));
        }
        assert(j == s.len());
    } else if j == s.len() - pat.len() {
    } else {
        assert(j + pat.len() < s.len());
        lemma_match_drop_last(s, pat, j);
        assert forall|k: int| j < k implies !match_at(s.drop_last(), pat, k) by {
            if k + pat.len() < s.len() {
                lemma_match_drop_last(s, pat, k);
            }
        }
        lemma_rfind_is(s.drop_last(), pat, j);
    }
}

proof fn lemma_rfind_none(s: Seq<char>, pat: Seq<char>)
    requires
        forall|k: int| !match_at(s, pat, k),
    ensures
        rfind_seq(s, pat) == -1,
    decreases s.len(),
{
    if pat.len() == 0 {
        assert(s.subrange(s.len() as int, s.len() as int) =~= pat);
        assert(match_at(s, pat, s.len() as int));
    } else if s.len() >= pat.len() {
        assert forall|k: int| !match_at(s.drop_last(), pat, k) by {
            if 0 <= k && k + pat.len() < s.len() {
                lemma_match_drop_last(s, pat, k);
            }
        }
        lemma_rfind_none(s.drop_last(), pat);
    }
}

/// Position of the last occurrence of the pattern, scanning from the end.
pub fn rfind_str(v: &Vec<char>, pat: &str) -> (r: Option<usize>)
    ensures
        match r {
            Some(i) => rfind_seq(v@, pat@) == i as int && match_at(v@, pat@, i as int),
            None => rfind_seq(v@, pat@) == -1 && !contains_seq(v@, pat@),
        },
{
    let p = to_chars(pat);
    if p.len() > v.len() || p.len() == 0 {
        if p.len() == 0 {
            // an empty pattern matches at the end of the line
            let i = v.len();
            proof {
                assert(v@.subrange(i as int, i as int) =~= p@);
                assert(match_at(v@, p@, i as int));
                lemma_rfind_is(v@, p@, i as int);
            }
            return Some(i);
        }
        proof {
            assert(forall|k: int| !match_at(v@, p@, k));
            lemma_rfind_none(v@, p@);
        }
        return None;
    }
    let mut i: usize = v.len() - p.len();
    loop
        invariant
            p@ == pat@,
            1 <= p@.len() <= v@.len(),
            i <= v@.len() - p@.len(),
            forall|k: int| i < k ==> !match_at(v@, p@, k),
        decreases i,
    {
        if match_at_exec(v, &p, i) {
            proof {
                lemma_rfind_is(v@, p@, i as int);
            }
            return Some(i);
        }
        if i == 0 {
            proof {
                assert(forall|k: int| !match_at(v@, p@, k));
                lemma_rfind_none(v@, p@);
            }
            return None;
        }
        i = i - 1;
    }
}

/// The line with every occurrence of one character removed.
pub open spec fn remove_char(s: Seq<char>, c: char) -> Seq<char>
    decreases s.len(),
{
    if s.len() == 0 {
        s
    } else {
        let r = remove_char(s.drop_last(), c);
        if s.last() == c {
            r
        } else {
            r.push(s.last())
        }
    }
}

pub fn remove_char_exec(v: &Vec<char>, c: char) -> (r: Vec<char>)
    ensures
        r@ == remove_char(v@, c),
{
    let mut r: Vec<char> = Vec::new();
    let mut i: usize = 0;
    while i < v.len()
        invariant
            i <= v.len(),
            r@ == remove_char(v@.take(i as int), c),
        decreases v.len() - i,
    {
        assert(v@.take(i as int + 1).drop_last() =~= v@.take(i as int));
        if v[i] != c {
            r.push(v[i]);
        }
        i = i + 1;
    }
    assert(v@.take(v.len() as int) =~= v@);
    r
}

/// Relies on String::push: appends the character to the end of the string.
#[verifier::external_body]
fn push_char(s: &mut String, c: char)
    ensures
        final(s)@ == old(s)@.push(c),
{
    s.push(c);
}

/// Builds the `String` holding exactly the given characters.
pub fn chars_to_string(v: &Vec<char>) -> (r: String)
    ensures
        r@ == v@,
{
    let mut r = String::new();
    let mut i: usize = 0;
    while i < v.len()
        invariant
            i <= v.len(),
            r@ == v@.take(i as int),
        decreases v.len() - i,
    {
        push_char(&mut r, v[i]);
        assert(v@.take(i as int + 1) =~= v@.take(i as int).push(v@[i as int]));
        i = i + 1;
    }
    assert(v@.take(v.len() as int) =~= v@);
    r
}

} // verus!

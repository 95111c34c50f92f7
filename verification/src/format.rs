//! The formatter: a deterministic pipeline of whole-document rewrite
//! passes.  Each pass is a pure function from lines to lines with an exact
//! contract; `format_file` composes them in a fixed order and renders the
//! result as replacement edits.

use vstd::prelude::*;
use crate::text::{
    is_ws, trim_spec, trim, trim_end_spec, trim_start_spec, contains_seq, contains_str,
    contains_char, subvec, find_char, lemma_find_char_is, chars_to_string,
};
use crate::scan::{containsi, containsi_exec, in_ml_comment, is_line_in_multiline_comment,
    inside_selectors, is_line_inside_selectors, inside_init_args, is_line_inside_init_args,
    ml_comment_clause, is_multi_line_comment_clause, line_starts_with_kw, line_contains_cql_kw};

verus! {

/// Runs of spaces collapsed to one space.
pub open spec fn collapse_spaces(s: Seq<char>) -> Seq<char>
    decreases s.len(),
{
    if s.len() == 0 {
        s
    } else {
        let r = collapse_spaces(s.drop_last());
        if s.last() == ' ' && r.len() > 0 && r.last() == ' ' {
            r
        } else {
            r.push(s.last())
        }
    }
}

/// Runs of terminators collapsed to one.
pub open spec fn dedup_semis(s: Seq<char>) -> Seq<char>
    decreases s.len(),
{
    if s.len() == 0 {
        s
    } else {
        let r = dedup_semis(s.drop_last());
        if s.last() == ';' && r.len() > 0 && r.last() == ';' {
            r
        } else {
            r.push(s.last())
        }
    }
}

/// A space dropped wherever the next character is closing punctuation.
pub open spec fn strip_space_before_wild(s: Seq<char>) -> Seq<char>
    decreases s.len(),
{
    if s.len() == 0 {
        s
    } else {
        let r = strip_space_before_wild(s.drop_last());
        let c = s.last();
        if (c == ';' || c == ',' || c == ')' || c == '>') && r.len() > 0 && r.last() == ' ' {
            r.drop_last().push(c)
        } else if c == ' ' && r.len() > 0 && r.last() == ' ' {
            r
        } else {
            r.push(c)
        }
    }
}

/// A space dropped wherever the previous character is opening punctuation.
pub open spec fn strip_space_after_wild(s: Seq<char>) -> Seq<char>
    decreases s.len(),
{
    if s.len() == 0 {
        s
    } else {
        let r = strip_space_after_wild(s.drop_last());
        let c = s.last();
        if c == ' ' && r.len() > 0 && (r.last() == '(' || r.last() == '<') {
            r
        } else {
            r.push(c)
        }
    }
}

/// One space guaranteed after every comma that is not last on the line.
pub open spec fn space_after_comma(s: Seq<char>) -> Seq<char>
    decreases s.len(),
{
    if s.len() == 0 {
        s
    } else {
        let r = space_after_comma(s.drop_last());
        let c = s.last();
        if c != ' ' && r.len() > 0 && r.last() == ',' {
            r.push(' ').push(c)
        } else {
            r.push(c)
        }
    }
}

/// Removes duplicate spaces from the line.
pub fn fix_spacing(line: &Vec<char>) -> (r: Vec<char>)
    ensures
        r@ == collapse_spaces(line@),
{
    let mut r: Vec<char> = Vec::new();
    let mut i: usize = 0;
    while i < line.len()
        invariant
            i <= line.len(),
            r@ == collapse_spaces(line@.take(i as int)),
        decreases line.len() - i,
    {
        assert(line@.take(i as int + 1).drop_last() =~= line@.take(i as int));
        let c = line[i];
        if !(c == ' ' && r.len() > 0 && r[r.len() - 1] == ' ') {
            r.push(c);
        }
        i = i + 1;
    }
    assert(line@.take(line@.len() as int) =~= line@);
    r
}

/// Removes duplicate statement terminators from the line.
pub fn fix_duplicate_semi_colon(line: &Vec<char>) -> (r: Vec<char>)
    ensures
        r@ == dedup_semis(line@),
{
    let mut r: Vec<char> = Vec::new();
    let mut i: usize = 0;
    while i < line.len()
        invariant
            i <= line.len(),
            r@ == dedup_semis(line@.take(i as int)),
        decreases line.len() - i,
    {
        assert(line@.take(i as int + 1).drop_last() =~= line@.take(i as int));
        let c = line[i];
        if !(c == ';' && r.len() > 0 && r[r.len() - 1] == ';') {
            r.push(c);
        }
        i = i + 1;
    }
    assert(line@.take(line@.len() as int) =~= line@);
    r
}

/// Removes the space standing before a terminator, comma or closing
/// bracket.
pub fn remove_leading_spaces_wildcards(line: &Vec<char>) -> (r: Vec<char>)
    ensures
        r@ == strip_space_before_wild(line@),
{
    let mut r: Vec<char> = Vec::new();
    let mut i: usize = 0;
    while i < line.len()
        invariant
            i <= line.len(),
            r@ == strip_space_before_wild(line@.take(i as int)),
        decreases line.len() - i,
    {
        assert(line@.take(i as int + 1).drop_last() =~= line@.take(i as int));
        let c = line[i];
        if (c == ';' || c == ',' || c == ')' || c == '>') && r.len() > 0 && r[r.len() - 1] == ' ' {
            let _ = r.pop();
            r.push(c);
        } else if c == ' ' && r.len() > 0 && r[r.len() - 1] == ' ' {
        } else {
            r.push(c);
        }
        i = i + 1;
    }
    assert(line@.take(line@.len() as int) =~= line@);
    r
}

/// Removes the space standing after an opening bracket.
pub fn remove_tailing_spaces_wildcards(line: &Vec<char>) -> (r: Vec<char>)
    ensures
        r@ == strip_space_after_wild(line@),
{
    let mut r: Vec<char> = Vec::new();
    let mut i: usize = 0;
    while i < line.len()
        invariant
            i <= line.len(),
            r@ == strip_space_after_wild(line@.take(i as int)),
        decreases line.len() - i,
    {
        assert(line@.take(i as int + 1).drop_last() =~= line@.take(i as int));
        let c = line[i];
        if !(c == ' ' && r.len() > 0 && (r[r.len() - 1] == '(' || r[r.len() - 1] == '<')) {
            r.push(c);
        }
        i = i + 1;
    }
    assert(line@.take(line@.len() as int) =~= line@);
    r
}

/// Ensures one space follows every comma.
fn space_after_comma_exec(line: &Vec<char>) -> (r: Vec<char>)
    ensures
        r@ == space_after_comma(line@),
{
    let mut r: Vec<char> = Vec::new();
    let mut i: usize = 0;
    while i < line.len()
        invariant
            i <= line.len(),
            r@ == space_after_comma(line@.take(i as int)),
        decreases line.len() - i,
    {
        assert(line@.take(i as int + 1).drop_last() =~= line@.take(i as int));
        let c = line[i];
        if c != ' ' && r.len() > 0 && r[r.len() - 1] == ',' {
            r.push(' ');
        }
        r.push(c);
        i = i + 1;
    }
    assert(line@.take(line@.len() as int) =~= line@);
    r
}

pub open spec fn is_quote(c: char) -> bool {
    c == '"' || c == '\''
}

/// First index holding a quote of either kind, or the line's length.
pub open spec fn find_quote(s: Seq<char>) -> int
    decreases s.len(),
{
    if s.len() == 0 {
        0
    } else if is_quote(s[0]) {
        0
    } else {
        1 + find_quote(s.drop_first())
    }
}

proof fn lemma_find_quote_is(s: Seq<char>, j: int)
    requires
        0 <= j <= s.len(),
        forall|k: int| 0 <= k < j ==> !is_quote(s[k]),
        j == s.len() || is_quote(s[j]),
    ensures
        find_quote(s) == j,
    decreases j,
{
    if j > 0 {
        lemma_find_quote_is(s.drop_first(), j - 1);
    }
}

proof fn lemma_find_quote_bounds(s: Seq<char>)
    ensures
        0 <= find_quote(s) <= s.len(),
    decreases s.len(),
{
    if s.len() > 0 && !is_quote(s[0]) {
        lemma_find_quote_bounds(s.drop_first());
    }
}

/// Interior whitespace of each quoted span trimmed away: at each step the
/// first quote of either kind opens a span, the next quote of the same kind
/// closes it, and what stands between them is trimmed.
pub open spec fn fix_lits(s: Seq<char>) -> Seq<char>
    decreases s.len(),
    via fix_lits_decreases
{
    let i = find_quote(s);
    if i >= s.len() {
        s
    } else {
        let q = s[i];
        let rest = s.skip(i + 1);
        let j = find_char(rest, q);
        if j >= rest.len() {
            s
        } else {
            s.take(i + 1) + trim_spec(rest.take(j)) + seq![q] + fix_lits(rest.skip(j + 1))
        }
    }
}

#[via_fn]
proof fn fix_lits_decreases(s: Seq<char>) {
    lemma_find_quote_bounds(s);
    let i = find_quote(s);
    if i < s.len() {
        let rest = s.skip(i + 1);
        crate::text::lemma_find_char(rest, s[i]);
    }
}

fn find_quote_from(v: &Vec<char>, from: usize) -> (j: usize)
    requires
        from <= v@.len(),
    ensures
        from <= j <= v@.len(),
        forall|k: int| from <= k < j ==> !is_quote(v@[k]),
        j < v@.len() ==> is_quote(v@[j as int]),
{
    let mut j = from;
    while j < v.len()
        invariant
            from <= j <= v@.len(),
            forall|k: int| from <= k < j ==> !is_quote(v@[k]),
        decreases v.len() - j,
    {
        if v[j] == '"' || v[j] == '\'' {
            return j;
        }
        j = j + 1;
    }
    j
}

/// Trims stray whitespace inside single- and double-quoted literal spans
/// of one line, leaving everything outside the quotes alone.
pub fn fix_string_literals_in_line(line: &Vec<char>) -> (r: Vec<char>)
    ensures
        r@ == fix_lits(line@),
{
    let mut out: Vec<char> = Vec::new();
    let mut p: usize = 0;
    proof {
        assert(line@.skip(0) =~= line@);
        assert(out@ + fix_lits(line@) =~= fix_lits(line@));
    }
    loop
        invariant
            p <= line@.len(),
            fix_lits(line@) == out@ + fix_lits(line@.skip(p as int)),
        decreases line@.len() - p,
    {
        let ghost rest0 = line@.skip(p as int);
        let i = find_quote_from(line, p);
        proof {
            lemma_find_quote_is(rest0, i - p as int);
        }
        if i == line.len() {
            // no quote in what is left: keep it as it stands
            let tail = subvec(line, p, line.len());
            let mut k: usize = 0;
            proof {
                assert(fix_lits(rest0) == rest0);
            }
            while k < tail.len()
                invariant
                    k <= tail@.len(),
                    out@ + tail@.skip(k as int) == fix_lits(line@),
                    tail@ == line@.subrange(p as int, line@.len() as int),
                decreases tail.len() - k,
            {
                assert(tail@.skip(k as int) =~= seq![tail@[k as int]] + tail@.skip(k as int + 1));
                out.push(tail[k]);
                proof {
                    assert(out@ + tail@.skip(k as int + 1) =~= fix_lits(line@));
                }
                k = k + 1;
            }
            assert(tail@.skip(tail@.len() as int) =~= Seq::<char>::empty());
            assert(out@ =~= out@ + tail@.skip(tail@.len() as int));
            return out;
        }
        let q = line[i];
        let ghost rest = line@.skip(i + 1);
        let j = crate::text::find_char_from(line, q, i + 1);
        proof {
            lemma_find_char_is(rest, q, j - (i + 1));
        }
        if j == line.len() {
            // unmatched quote: keep the remainder as it stands
            proof {
                assert(rest0.skip((i - p) + 1) =~= rest);
                assert(rest0[i - p as int] == q);
                assert(fix_lits(rest0) == rest0);
            }
            let tail = subvec(line, p, line.len());
            let mut k: usize = 0;
            while k < tail.len()
                invariant
                    k <= tail@.len(),
                    out@ + tail@.skip(k as int) == fix_lits(line@),
                    tail@ == line@.subrange(p as int, line@.len() as int),
                decreases tail.len() - k,
            {
                assert(tail@.skip(k as int) =~= seq![tail@[k as int]] + tail@.skip(k as int + 1));
                out.push(tail[k]);
                proof {
                    assert(out@ + tail@.skip(k as int + 1) =~= fix_lits(line@));
                }
                k = k + 1;
            }
            assert(tail@.skip(tail@.len() as int) =~= Seq::<char>::empty());
            assert(out@ =~= out@ + tail@.skip(tail@.len() as int));
            return out;
        }
        // a closed span: copy up to and including the opening quote, the
        // trimmed interior, and the closing quote
        let ghost pre = out@;
        let head = subvec(line, p, i + 1);
        let interior = subvec(line, i + 1, j);
        let trimmed = trim(&interior);
        let mut k: usize = 0;
        while k < head.len()
            invariant
                k <= head@.len(),
                out@ == pre + head@.take(k as int),
                head@ == line@.subrange(p as int, i + 1),
            decreases head.len() - k,
        {
            out.push(head[k]);
            assert(pre + head@.take(k as int + 1) =~= (pre + head@.take(k as int)).push(
                head@[k as int],
            ));
            k = k + 1;
        }
        assert(head@.take(head@.len() as int) =~= head@);
        let ghost pre2 = out@;
        let mut k2: usize = 0;
        while k2 < trimmed.len()
            invariant
                k2 <= trimmed@.len(),
                out@ == pre2 + trimmed@.take(k2 as int),
            decreases trimmed.len() - k2,
        {
            out.push(trimmed[k2]);
            assert(pre2 + trimmed@.take(k2 as int + 1) =~= (pre2 + trimmed@.take(k2 as int)).push(
                trimmed@[k2 as int],
            ));
            k2 = k2 + 1;
        }
        assert(trimmed@.take(trimmed@.len() as int) =~= trimmed@);
        out.push(q);
        proof {
            // fix_lits over the suffix at p unfolds into what was appended
            // plus fix_lits of the suffix past the closing quote
            assert(rest0.skip((i - p) + 1) =~= rest);
            assert(rest0[i - p as int] == q);
            lemma_find_quote_is(rest0, i - p as int);
            assert(rest.take(j - (i + 1)) =~= line@.subrange(i + 1, j as int));
            assert(rest.skip((j - (i + 1)) + 1) =~= line@.skip(j + 1));
            assert(rest0.take((i - p) + 1) =~= line@.subrange(p as int, i + 1));
            assert(fix_lits(rest0) == line@.subrange(p as int, i + 1) + trim_spec(
                line@.subrange(i + 1, j as int),
            ) + seq![q] + fix_lits(line@.skip(j + 1)));
            assert(out@ =~= pre + (line@.subrange(p as int, i + 1) + trim_spec(
                line@.subrange(i + 1, j as int),
            ) + seq![q]));
            assert(out@ + fix_lits(line@.skip(j + 1)) =~= pre + fix_lits(rest0));
        }
        p = j + 1;
    }
}

/// Blank lines dropped where the previous surviving line is itself blank or
/// ends in an opening bracket.
pub open spec fn drop_extra_blanks(lines: Seq<Seq<char>>) -> Seq<Seq<char>>
    decreases lines.len(),
{
    if lines.len() == 0 {
        lines
    } else {
        let r = drop_extra_blanks(lines.drop_last());
        let l = lines.last();
        if l.len() == 0 && r.len() > 0 && (r.last().len() == 0 || r.last().last() == '(') {
            r
        } else {
            r.push(l)
        }
    }
}

/// Removes blank lines that follow another blank line or a line ending in
/// an open bracket.
pub fn fix_new_lines(lines: &Vec<Vec<char>>) -> (r: Vec<Vec<char>>)
    ensures
        r.deep_view() == drop_extra_blanks(lines.deep_view()),
{
    let mut r: Vec<Vec<char>> = Vec::new();
    let mut i: usize = 0;
    proof {
        assert(lines.deep_view().take(0) =~= Seq::<Seq<char>>::empty());
        assert(r.deep_view() =~~= drop_extra_blanks(lines.deep_view().take(0)));
    }
    while i < lines.len()
        invariant
            i <= lines@.len(),
            r.deep_view() == drop_extra_blanks(lines.deep_view().take(i as int)),
        decreases lines.len() - i,
    {
        let ghost dv = lines.deep_view();
        proof {
            assert(dv.take(i as int + 1).drop_last() =~= dv.take(i as int));
            assert(dv.take(i as int + 1).last() == dv[i as int]);
            assert(dv[i as int] == lines@[i as int]@);
        }
        let n = r.len();
        let drop_it = lines[i].len() == 0 && n > 0 && (r[n - 1].len() == 0 || r[n - 1][r[n
            - 1].len() - 1] == '(');
        proof {
            assert(n > 0 ==> r.deep_view()[n - 1] == r@[n - 1]@);
            assert(n > 0 ==> r.deep_view().last() == r@[n - 1]@);
        }
        if !drop_it {
            let ghost pre = r.deep_view();
            let copy = subvec(&lines[i], 0, lines[i].len());
            r.push(copy);
            proof {
                assert(r.deep_view() =~~= pre.push(dv[i as int]));
            }
        }
        i = i + 1;
    }
    assert(lines.deep_view().take(lines@.len() as int) =~= lines.deep_view());
    r
}

/// The blank-stripping state machine for one statement: `inside` says an
/// unterminated statement is open; blanks met while it is open are
/// dropped.
pub open spec fn strip_stmt_blanks(lines: Seq<Seq<char>>, inside: bool) -> Seq<Seq<char>>
    decreases lines.len(),
{
    if lines.len() == 0 {
        lines
    } else {
        let l = lines[0];
        let opened = if !inside && l.len() > 0 && !l.contains(';') {
            true
        } else {
            inside
        };
        let st = if l.contains(';') {
            false
        } else {
            opened
        };
        let rest = strip_stmt_blanks(lines.drop_first(), st);
        if l.len() == 0 && st {
            rest
        } else {
            seq![l] + rest
        }
    }
}

/// Removes blank lines standing strictly inside an open, unterminated
/// statement.
pub fn remove_new_lines_from_code_block(lines: &Vec<Vec<char>>) -> (r: Vec<Vec<char>>)
    ensures
        r.deep_view() == strip_stmt_blanks(lines.deep_view(), false),
{
    let mut r: Vec<Vec<char>> = Vec::new();
    let mut inside = false;
    let mut i: usize = 0;
    proof {
        assert(lines.deep_view().skip(0) =~= lines.deep_view());
        assert(r.deep_view() + strip_stmt_blanks(lines.deep_view(), false) =~~= strip_stmt_blanks(
            lines.deep_view(),
            false,
        ));
    }
    while i < lines.len()
        invariant
            i <= lines@.len(),
            strip_stmt_blanks(lines.deep_view(), false) == r.deep_view() + strip_stmt_blanks(
                lines.deep_view().skip(i as int),
                inside,
            ),
        decreases lines.len() - i,
    {
        let ghost dv = lines.deep_view();
        let ghost rest = dv.skip(i as int);
        proof {
            assert(rest[0] == dv[i as int]);
            assert(rest.drop_first() =~= dv.skip(i as int + 1));
            assert(dv[i as int] == lines@[i as int]@);
        }
        let nonempty = lines[i].len() > 0;
        let has_semi = contains_char(&lines[i], ';');
        if !inside && nonempty && !has_semi {
            inside = true;
        }
        if has_semi {
            inside = false;
        }
        let ghost pre = r.deep_view();
        if !(lines[i].len() == 0 && inside) {
            let copy = subvec(&lines[i], 0, lines[i].len());
            r.push(copy);
            proof {
                assert(r.deep_view() =~~= pre.push(dv[i as int]));
                assert(pre.push(dv[i as int]) + strip_stmt_blanks(dv.skip(i as int + 1), inside)
                    =~~= pre + (seq![dv[i as int]] + strip_stmt_blanks(
                    dv.skip(i as int + 1),
                    inside,
                )));
            }
        }
        i = i + 1;
    }
    assert(lines.deep_view().skip(lines@.len() as int) =~= Seq::<Seq<char>>::empty());
    assert(r.deep_view() + strip_stmt_blanks(Seq::<Seq<char>>::empty(), inside) =~~= r.deep_view());
    r
}

/// The line at `i` should receive a terminator: it is a non-empty statement
/// line without one, outside any comment, and the document ends here or the
/// next line is blank or starts a new statement.
pub open spec fn wants_semi(lines: Seq<Seq<char>>, i: int) -> bool {
    &&& 0 <= i < lines.len()
    &&& lines[i].len() > 0
    &&& !lines[i].contains(';')
    &&& !containsi(lines[i], "begin"@)
    &&& !contains_seq(lines[i], "//"@)
    &&& !contains_seq(lines[i], "/*"@)
    &&& !contains_seq(lines[i], "*/"@)
    &&& !in_ml_comment(lines[i], i, lines)
    &&& (i == lines.len() - 1 || lines[i + 1].len() == 0 || line_starts_with_kw(lines[i + 1]))
}

/// Every line, with a terminator appended where `wants_semi` holds.
pub open spec fn apply_semis(lines: Seq<Seq<char>>) -> Seq<Seq<char>> {
    Seq::new(
        lines.len(),
        |i: int|
            if wants_semi(lines, i) {
                lines[i].push(';')
            } else {
                lines[i]
            },
    )
}

/// Appends the missing statement terminator to each line whose statement
/// plainly ends there.
pub fn apply_semi_colon(lines: &Vec<Vec<char>>) -> (r: Vec<Vec<char>>)
    ensures
        r.deep_view() == apply_semis(lines.deep_view()),
{
    let mut r: Vec<Vec<char>> = Vec::new();
    let mut i: usize = 0;
    while i < lines.len()
        invariant
            i <= lines@.len(),
            r.deep_view() == apply_semis(lines.deep_view()).take(i as int),
        decreases lines.len() - i,
    {
        let ghost dv = lines.deep_view();
        proof {
            assert(dv[i as int] == lines@[i as int]@);
        }
        let mut copy = subvec(&lines[i], 0, lines[i].len());
        let line_ok = lines[i].len() > 0 && !contains_char(&lines[i], ';') && !containsi_exec(
            &lines[i],
            "begin",
        ) && !contains_str(&lines[i], "//") && !contains_str(&lines[i], "/*") && !contains_str(
            &lines[i],
            "*/",
        ) && !is_line_in_multiline_comment(&lines[i], i, lines);
        let boundary = if i + 1 == lines.len() {
            true
        } else {
            proof {
                assert(dv[i as int + 1] == lines@[i as int + 1]@);
            }
            lines[i + 1].len() == 0 || line_contains_cql_kw(&lines[i + 1])
        };
        if line_ok && boundary {
            copy.push(';');
        }
        let ghost pre = r.deep_view();
        r.push(copy);
        proof {
            assert(r.deep_view() =~~= pre.push(
                if wants_semi(dv, i as int) {
                    dv[i as int].push(';')
                } else {
                    dv[i as int]
                },
            ));
            assert(apply_semis(dv).take(i as int + 1) =~~= apply_semis(dv).take(i as int).push(
                apply_semis(dv)[i as int],
            ));
        }
        i = i + 1;
    }
    assert(apply_semis(lines.deep_view()).take(lines@.len() as int) =~= apply_semis(
        lines.deep_view(),
    ));
    r
}

/// One blank line inserted after each line that ends a statement or opens a
/// batch, when the following line is not already blank.
pub open spec fn blank_after_stmts(lines: Seq<Seq<char>>) -> Seq<Seq<char>>
    decreases lines.len(),
{
    if lines.len() <= 1 {
        lines
    } else {
        let l = lines[0];
        if (l.contains(';') || containsi(l, "begin"@)) && lines[1].len() > 0 {
            seq![l, Seq::<char>::empty()] + blank_after_stmts(lines.drop_first())
        } else {
            seq![l] + blank_after_stmts(lines.drop_first())
        }
    }
}

/// Inserts one empty line after every terminator or BEGIN line followed by
/// text.
pub fn add_spacing_new_lines(lines: &Vec<Vec<char>>) -> (r: Vec<Vec<char>>)
    ensures
        r.deep_view() == blank_after_stmts(lines.deep_view()),
{
    let mut r: Vec<Vec<char>> = Vec::new();
    let mut i: usize = 0;
    proof {
        assert(lines.deep_view().skip(0) =~= lines.deep_view());
        assert(r.deep_view() + blank_after_stmts(lines.deep_view()) =~~= blank_after_stmts(
            lines.deep_view(),
        ));
    }
    while i < lines.len()
        invariant
            i <= lines@.len(),
            blank_after_stmts(lines.deep_view()) == r.deep_view() + blank_after_stmts(
                lines.deep_view().skip(i as int),
            ),
        decreases lines.len() - i,
    {
        let ghost dv = lines.deep_view();
        let ghost rest = dv.skip(i as int);
        proof {
            assert(rest[0] == dv[i as int]);
            assert(rest.drop_first() =~= dv.skip(i as int + 1));
            assert(dv[i as int] == lines@[i as int]@);
        }
        let ghost pre = r.deep_view();
        let copy = subvec(&lines[i], 0, lines[i].len());
        r.push(copy);
        proof {
            assert(r.deep_view() =~~= pre.push(dv[i as int]));
        }
        if i + 1 < lines.len() {
            proof {
                assert(rest.len() > 1);
                assert(rest[1] == dv[i as int + 1]);
                assert(dv[i as int + 1] == lines@[i as int + 1]@);
            }
            if (contains_char(&lines[i], ';') || containsi_exec(&lines[i], "begin")) && lines[i
                + 1].len() > 0 {
                let ghost pre2 = r.deep_view();
                r.push(Vec::new());
                proof {
                    assert(r.deep_view() =~~= pre2.push(Seq::<char>::empty()));
                    assert(pre + (seq![dv[i as int], Seq::<char>::empty()] + blank_after_stmts(
                        rest.drop_first(),
                    )) =~~= r.deep_view() + blank_after_stmts(dv.skip(i as int + 1)));
                }
            } else {
                proof {
                    assert(pre + (seq![dv[i as int]] + blank_after_stmts(rest.drop_first())) =~~= r.deep_view()
                        + blank_after_stmts(dv.skip(i as int + 1)));
                }
            }
        } else {
            proof {
                assert(rest.len() == 1);
                assert(blank_after_stmts(rest) == rest);
                assert(rest =~= seq![dv[i as int]]);
                assert(pre + rest =~~= r.deep_view());
                assert(dv.skip(i as int + 1) =~= Seq::<Seq<char>>::empty());
                assert(r.deep_view() + blank_after_stmts(dv.skip(i as int + 1)) =~~= r.deep_view());
            }
        }
        i = i + 1;
    }
    proof {
        if lines@.len() == 0 {
            assert(blank_after_stmts(lines.deep_view()) =~~= r.deep_view());
        } else {
            assert(lines.deep_view().skip(lines@.len() as int) =~= Seq::<Seq<char>>::empty());
            assert(r.deep_view() + blank_after_stmts(Seq::<Seq<char>>::empty()) =~~= r.deep_view());
        }
    }
    r
}

/// Ensures a space follows every comma on every line.
pub fn add_spacing_after_comma(lines: &Vec<Vec<char>>) -> (r: Vec<Vec<char>>)
    ensures
        r.deep_view() == lines.deep_view().map_values(|l: Seq<char>| space_after_comma(l)),
{
    let mut r: Vec<Vec<char>> = Vec::new();
    let mut i: usize = 0;
    while i < lines.len()
        invariant
            i <= lines@.len(),
            r.deep_view() == lines.deep_view().take(i as int).map_values(
                |l: Seq<char>| space_after_comma(l),
            ),
        decreases lines.len() - i,
    {
        let ghost dv = lines.deep_view();
        proof {
            assert(dv[i as int] == lines@[i as int]@);
        }
        let ghost pre = r.deep_view();
        r.push(space_after_comma_exec(&lines[i]));
        proof {
            assert(r.deep_view() =~~= pre.push(space_after_comma(dv[i as int])));
            assert(dv.take(i as int + 1).map_values(|l: Seq<char>| space_after_comma(l)) =~~= dv.take(
                i as int,
            ).map_values(|l: Seq<char>| space_after_comma(l)).push(space_after_comma(dv[i as int])));
        }
        i = i + 1;
    }
    assert(lines.deep_view().take(lines@.len() as int) =~= lines.deep_view());
    r
}

/// The line at `i` is to be indented: the scanners place it inside an
/// argument or selector block and it is not itself a comment marker line.
pub open spec fn tab_mark(lines: Seq<Seq<char>>, i: int) -> bool {
    &&& 0 <= i < lines.len()
    &&& (inside_init_args(lines[i], i, lines) || inside_selectors(lines[i], i, lines))
    &&& !ml_comment_clause(lines[i])
}

/// One indent unit.
pub open spec fn indent_unit() -> Seq<char> {
    seq![' ', ' ', ' ', ' ']
}

/// Every marked line with one indent unit prepended.
pub open spec fn add_tabs(lines: Seq<Seq<char>>) -> Seq<Seq<char>> {
    Seq::new(
        lines.len(),
        |i: int|
            if tab_mark(lines, i) {
                indent_unit() + lines[i]
            } else {
                lines[i]
            },
    )
}

/// Indents the lines that sit inside argument or selector blocks.
pub fn add_tabs_to_args(lines: &Vec<Vec<char>>) -> (r: Vec<Vec<char>>)
    ensures
        r.deep_view() == add_tabs(lines.deep_view()),
{
    let mut r: Vec<Vec<char>> = Vec::new();
    let mut i: usize = 0;
    while i < lines.len()
        invariant
            i <= lines@.len(),
            r.deep_view() == add_tabs(lines.deep_view()).take(i as int),
        decreases lines.len() - i,
    {
        let ghost dv = lines.deep_view();
        proof {
            assert(dv[i as int] == lines@[i as int]@);
        }
        let marked = (is_line_inside_init_args(&lines[i], i, lines) || is_line_inside_selectors(
            &lines[i],
            i,
            lines,
        )) && !is_multi_line_comment_clause(&lines[i]);
        let mut copy: Vec<char> = Vec::new();
        if marked {
            copy.push(' ');
            copy.push(' ');
            copy.push(' ');
            copy.push(' ');
            assert(copy@ =~= indent_unit());
        }
        let ghost base = copy@;
        let mut k: usize = 0;
        while k < lines[i].len()
            invariant
                k <= lines@[i as int]@.len(),
                i < lines@.len(),
                base == if marked {
                    indent_unit()
                } else {
                    Seq::<char>::empty()
                },
                copy@ == base + lines@[i as int]@.take(k as int),
            decreases lines@[i as int]@.len() - k,
        {
            copy.push(lines[i][k]);
            assert(base + lines@[i as int]@.take(k as int + 1) =~= (base + lines@[i as int]@.take(
                k as int,
            )).push(lines@[i as int]@[k as int]));
            k = k + 1;
        }
        assert(lines@[i as int]@.take(lines@[i as int]@.len() as int) =~= lines@[i as int]@);
        let ghost pre = r.deep_view();
        r.push(copy);
        proof {
            if !marked {
                assert(Seq::<char>::empty() + dv[i as int] =~= dv[i as int]);
            }
            assert(r.deep_view() =~~= pre.push(add_tabs(dv)[i as int]));
            assert(add_tabs(dv).take(i as int + 1) =~~= add_tabs(dv).take(i as int).push(
                add_tabs(dv)[i as int],
            ));
        }
        i = i + 1;
    }
    assert(add_tabs(lines.deep_view()).take(lines@.len() as int) =~= add_tabs(lines.deep_view()));
    r
}

/// One line as the first stage of the pipeline rewrites it: trimmed, space
/// runs collapsed, duplicate terminators removed.
pub open spec fn normalize_line(l: Seq<char>) -> Seq<char> {
    dedup_semis(collapse_spaces(trim_spec(l)))
}

/// One line with stray spaces around punctuation removed.
pub open spec fn wild_line(l: Seq<char>) -> Seq<char> {
    strip_space_after_wild(strip_space_before_wild(l))
}

/// Removes the spaces standing against punctuation on every line.
pub fn fix_semi_colon(lines: &Vec<Vec<char>>) -> (r: Vec<Vec<char>>)
    ensures
        r.deep_view() == lines.deep_view().map_values(|l: Seq<char>| wild_line(l)),
{
    let mut r: Vec<Vec<char>> = Vec::new();
    let mut i: usize = 0;
    while i < lines.len()
        invariant
            i <= lines@.len(),
            r.deep_view() == lines.deep_view().take(i as int).map_values(
                |l: Seq<char>| wild_line(l),
            ),
        decreases lines.len() - i,
    {
        let ghost dv = lines.deep_view();
        proof {
            assert(dv[i as int] == lines@[i as int]@);
        }
        let a = remove_leading_spaces_wildcards(&lines[i]);
        let b = remove_tailing_spaces_wildcards(&a);
        let ghost pre = r.deep_view();
        r.push(b);
        proof {
            assert(r.deep_view() =~~= pre.push(wild_line(dv[i as int])));
            assert(dv.take(i as int + 1).map_values(|l: Seq<char>| wild_line(l)) =~~= dv.take(
                i as int,
            ).map_values(|l: Seq<char>| wild_line(l)).push(wild_line(dv[i as int])));
        }
        i = i + 1;
    }
    assert(lines.deep_view().take(lines@.len() as int) =~= lines.deep_view());
    r
}

/// Trims the interior of quoted literal spans on every line.
pub fn fix_string_literals(lines: &Vec<Vec<char>>) -> (r: Vec<Vec<char>>)
    ensures
        r.deep_view() == lines.deep_view().map_values(|l: Seq<char>| fix_lits(l)),
{
    let mut r: Vec<Vec<char>> = Vec::new();
    let mut i: usize = 0;
    while i < lines.len()
        invariant
            i <= lines@.len(),
            r.deep_view() == lines.deep_view().take(i as int).map_values(|l: Seq<char>| fix_lits(l)),
        decreases lines.len() - i,
    {
        let ghost dv = lines.deep_view();
        proof {
            assert(dv[i as int] == lines@[i as int]@);
        }
        let ghost pre = r.deep_view();
        r.push(fix_string_literals_in_line(&lines[i]));
        proof {
            assert(r.deep_view() =~~= pre.push(fix_lits(dv[i as int])));
            assert(dv.take(i as int + 1).map_values(|l: Seq<char>| fix_lits(l)) =~~= dv.take(
                i as int,
            ).map_values(|l: Seq<char>| fix_lits(l)).push(fix_lits(dv[i as int])));
        }
        i = i + 1;
    }
    assert(lines.deep_view().take(lines@.len() as int) =~= lines.deep_view());
    r
}

/// The whole formatting pipeline, in its fixed order: whitespace and
/// terminator normalisation, punctuation spacing, literal-span trimming,
/// blank-line pruning, terminator insertion, statement spacing, comma
/// spacing, and block indentation.
pub open spec fn format_spec(lines: Seq<Seq<char>>) -> Seq<Seq<char>> {
    let a = lines.map_values(|l: Seq<char>| normalize_line(l));
    let b = a.map_values(|l: Seq<char>| wild_line(l));
    let c = b.map_values(|l: Seq<char>| fix_lits(l));
    let d = drop_extra_blanks(c);
    let e = strip_stmt_blanks(d, false);
    let f = apply_semis(e);
    let g = blank_after_stmts(f);
    let h = g.map_values(|l: Seq<char>| space_after_comma(l));
    add_tabs(h)
}

/// Rewrites the whole document into canonical form.
pub fn format_lines(lines: &Vec<Vec<char>>) -> (r: Vec<Vec<char>>)
    ensures
        r.deep_view() == format_spec(lines.deep_view()),
{
    let mut a: Vec<Vec<char>> = Vec::new();
    let mut i: usize = 0;
    while i < lines.len()
        invariant
            i <= lines@.len(),
            a.deep_view() == lines.deep_view().take(i as int).map_values(
                |l: Seq<char>| normalize_line(l),
            ),
        decreases lines.len() - i,
    {
        let ghost dv = lines.deep_view();
        proof {
            assert(dv[i as int] == lines@[i as int]@);
        }
        let t = trim(&lines[i]);
        let c = fix_spacing(&t);
        let d = fix_duplicate_semi_colon(&c);
        let ghost pre = a.deep_view();
        a.push(d);
        proof {
            assert(a.deep_view() =~~= pre.push(normalize_line(dv[i as int])));
            assert(dv.take(i as int + 1).map_values(|l: Seq<char>| normalize_line(l)) =~~= dv.take(
                i as int,
            ).map_values(|l: Seq<char>| normalize_line(l)).push(normalize_line(dv[i as int])));
        }
        i = i + 1;
    }
    assert(lines.deep_view().take(lines@.len() as int) =~= lines.deep_view());
    let b = fix_semi_colon(&a);
    let c = fix_string_literals(&b);
    let d = fix_new_lines(&c);
    let e = remove_new_lines_from_code_block(&d);
    let f = apply_semi_colon(&e);
    let g = add_spacing_new_lines(&f);
    let h = add_spacing_after_comma(&g);
    add_tabs_to_args(&h)
}

proof fn lemma_drop_extra_blanks_nonempty(lines: Seq<Seq<char>>)
    requires
        lines.len() > 0,
    ensures
        drop_extra_blanks(lines).len() > 0,
    decreases lines.len(),
{
    if lines.len() > 1 {
        lemma_drop_extra_blanks_nonempty(lines.drop_last());
    }
}

proof fn lemma_strip_stmt_blanks_nonempty(lines: Seq<Seq<char>>)
    requires
        lines.len() > 0,
    ensures
        strip_stmt_blanks(lines, false).len() > 0,
{
}

proof fn lemma_blank_after_stmts_len(lines: Seq<Seq<char>>)
    ensures
        blank_after_stmts(lines).len() >= lines.len(),
    decreases lines.len(),
{
    if lines.len() > 1 {
        lemma_blank_after_stmts_len(lines.drop_first());
    }
}

/// A non-empty document formats to a non-empty document.
pub proof fn lemma_format_nonempty(lines: Seq<Seq<char>>)
    requires
        lines.len() > 0,
    ensures
        format_spec(lines).len() > 0,
{
    let a = lines.map_values(|l: Seq<char>| normalize_line(l));
    let b = a.map_values(|l: Seq<char>| wild_line(l));
    let c = b.map_values(|l: Seq<char>| fix_lits(l));
    lemma_drop_extra_blanks_nonempty(c);
    let d = drop_extra_blanks(c);
    lemma_strip_stmt_blanks_nonempty(d);
    let e = strip_stmt_blanks(d, false);
    let f = apply_semis(e);
    lemma_blank_after_stmts_len(f);
}

/// The number of terminators on the line.
pub open spec fn count_semis(s: Seq<char>) -> int
    decreases s.len(),
{
    if s.len() == 0 {
        0
    } else {
        count_semis(s.drop_last()) + if s.last() == ';' {
            1int
        } else {
            0int
        }
    }
}

proof fn lemma_count_semis_zero(s: Seq<char>)
    requires
        !s.contains(';'),
    ensures
        count_semis(s) == 0,
    decreases s.len(),
{
    if s.len() > 0 {
        assert(!s.drop_last().contains(';')) by {
            if s.drop_last().contains(';') {
                let k = choose|k: int| 0 <= k < s.drop_last().len() && s.drop_last()[k] == ';';
                assert(s[k] == ';');
            }
        }
        lemma_count_semis_zero(s.drop_last());
        assert(s.last() != ';') by {
            assert(s[s.len() - 1] == s.last());
        }
    }
}

/// Law, first part: where the terminator-insertion pass fires — a
/// non-empty, uncommented line without a terminator whose statement ends
/// there, because the document ends, a blank line follows, or the next line
/// starts a new statement — the rewritten line ends in exactly one
/// terminator.
pub proof fn lemma_terminator_insertion(lines: Seq<Seq<char>>, i: int)
    requires
        wants_semi(lines, i),
    ensures
        apply_semis(lines)[i].len() > 0,
        apply_semis(lines)[i].last() == ';',
        count_semis(apply_semis(lines)[i]) == 1,
{
    let l = lines[i];
    lemma_count_semis_zero(l);
    assert(apply_semis(lines)[i] == l.push(';'));
    assert(l.push(';').drop_last() =~= l);
    assert(l.push(';').last() == ';');
}

proof fn lemma_space_after_comma_semi(s: Seq<char>)
    requires
        s.len() > 0,
        s.last() == ';',
    ensures
        space_after_comma(s).len() > 0,
        space_after_comma(s).last() == ';',
{
}

proof fn lemma_space_after_comma_count(s: Seq<char>)
    ensures
        count_semis(space_after_comma(s)) == count_semis(s),
    decreases s.len(),
{
    if s.len() > 0 {
        lemma_space_after_comma_count(s.drop_last());
        let r = space_after_comma(s.drop_last());
        let c = s.last();
        if c != ' ' && r.len() > 0 && r.last() == ',' {
            assert(r.push(' ').push(c).drop_last() =~= r.push(' '));
            assert(r.push(' ').drop_last() =~= r);
            assert(r.push(' ').push(c).last() == c);
            assert(r.push(' ').last() == ' ');
            assert(count_semis(r.push(' ')) == count_semis(r));
            assert(count_semis(space_after_comma(s)) == count_semis(r) + (if c == ';' {
                1int
            } else {
                0int
            }));
        } else {
            assert(r.push(c).drop_last() =~= r);
            assert(r.push(c).last() == c);
        }
        assert(count_semis(s) == count_semis(s.drop_last()) + (if c == ';' {
            1int
        } else {
            0int
        }));
    }
}

proof fn lemma_indent_semi(l: Seq<char>)
    ensures
        count_semis(indent_unit() + l) == count_semis(l),
        l.len() > 0 ==> (indent_unit() + l).last() == (l.last()),
    decreases l.len(),
{
    if l.len() == 0 {
        assert(indent_unit() + l =~= indent_unit());
        assert(count_semis(indent_unit()) == 0) by {
            lemma_count_semis_zero(indent_unit());
            assert(!indent_unit().contains(';'));
        }
    } else {
        lemma_indent_semi(l.drop_last());
        assert((indent_unit() + l).drop_last() =~= indent_unit() + l.drop_last());
        assert((indent_unit() + l).last() == l.last());
    }
}

proof fn lemma_blank_after_keeps_lines(lines: Seq<Seq<char>>, i: int)
    requires
        0 <= i < lines.len(),
    ensures
        exists|j: int|
            0 <= j < blank_after_stmts(lines).len() && blank_after_stmts(lines)[j] == lines[i],
    decreases lines.len(),
{
    if lines.len() <= 1 {
        assert(blank_after_stmts(lines)[i] == lines[i]);
    } else if i == 0 {
        assert(blank_after_stmts(lines)[0] == lines[0]);
    } else {
        lemma_blank_after_keeps_lines(lines.drop_first(), i - 1);
        let j = choose|j: int|
            0 <= j < blank_after_stmts(lines.drop_first()).len() && blank_after_stmts(
                lines.drop_first(),
            )[j] == lines.drop_first()[i - 1];
        let l = lines[0];
        if (l.contains(';') || containsi(l, "begin"@)) && lines[1].len() > 0 {
            assert(blank_after_stmts(lines)[j + 2] == lines[i]);
        } else {
            assert(blank_after_stmts(lines)[j + 1] == lines[i]);
        }
    }
}

/// Law, second part: a line that received its terminator carries it through
/// the rest of the pipeline.  Where the terminator-insertion pass fired on
/// line `i` of its input, the formatted document holds a line that ends in
/// exactly one terminator: the same line, comma-spaced and possibly
/// indented.
pub proof fn lemma_format_terminator(lines: Seq<Seq<char>>, i: int)
    requires
        ({
            let a = lines.map_values(|l: Seq<char>| normalize_line(l));
            let b = a.map_values(|l: Seq<char>| wild_line(l));
            let c = b.map_values(|l: Seq<char>| fix_lits(l));
            let d = drop_extra_blanks(c);
            let e = strip_stmt_blanks(d, false);
            wants_semi(e, i)
        }),
    ensures
        exists|j: int|
            0 <= j < format_spec(lines).len() && format_spec(lines)[j].len() > 0 && format_spec(
                lines,
            )[j].last() == ';' && count_semis(#[trigger] format_spec(lines)[j]) == 1,
{
    let a = lines.map_values(|l: Seq<char>| normalize_line(l));
    let b = a.map_values(|l: Seq<char>| wild_line(l));
    let c = b.map_values(|l: Seq<char>| fix_lits(l));
    let d = drop_extra_blanks(c);
    let e = strip_stmt_blanks(d, false);
    let f = apply_semis(e);
    lemma_terminator_insertion(e, i);
    lemma_blank_after_keeps_lines(f, i);
    let g = blank_after_stmts(f);
    let j = choose|j: int| 0 <= j < g.len() && g[j] == f[i];
    let h = g.map_values(|l: Seq<char>| space_after_comma(l));
    lemma_space_after_comma_semi(f[i]);
    lemma_space_after_comma_count(f[i]);
    assert(h[j] == space_after_comma(f[i]));
    let out = add_tabs(h);
    assert(out[j] == (if tab_mark(h, j) {
        indent_unit() + h[j]
    } else {
        h[j]
    }));
    lemma_indent_semi(h[j]);
    assert(out[j].len() > 0 && out[j].last() == ';' && count_semis(out[j]) == 1);
    assert(format_spec(lines) == out);
    assert(0 <= j < format_spec(lines).len() && format_spec(lines)[j].len() > 0 && format_spec(
        lines,
    )[j].last() == ';' && count_semis(format_spec(lines)[j]) == 1);
}

/// Law, third part: a statement line that already ends in its single
/// terminator when the insertion pass runs still ends in exactly one
/// terminator in the formatted document.
pub proof fn lemma_format_terminator_kept(lines: Seq<Seq<char>>, i: int)
    requires
        ({
            let a = lines.map_values(|l: Seq<char>| normalize_line(l));
            let b = a.map_values(|l: Seq<char>| wild_line(l));
            let c = b.map_values(|l: Seq<char>| fix_lits(l));
            let d = drop_extra_blanks(c);
            let e = strip_stmt_blanks(d, false);
            &&& 0 <= i < e.len()
            &&& e[i].len() > 0
            &&& e[i].last() == ';'
            &&& count_semis(e[i]) == 1
        }),
    ensures
        exists|j: int|
            0 <= j < format_spec(lines).len() && format_spec(lines)[j].len() > 0 && format_spec(
                lines,
            )[j].last() == ';' && count_semis(#[trigger] format_spec(lines)[j]) == 1,
{
    let a = lines.map_values(|l: Seq<char>| normalize_line(l));
    let b = a.map_values(|l: Seq<char>| wild_line(l));
    let c = b.map_values(|l: Seq<char>| fix_lits(l));
    let d = drop_extra_blanks(c);
    let e = strip_stmt_blanks(d, false);
    let f = apply_semis(e);
    assert(e[i].contains(';')) by {
        assert(e[i][e[i].len() - 1] == ';');
    }
    assert(f[i] == e[i]);
    lemma_blank_after_keeps_lines(f, i);
    let g = blank_after_stmts(f);
    let j = choose|j: int| 0 <= j < g.len() && g[j] == f[i];
    let h = g.map_values(|l: Seq<char>| space_after_comma(l));
    lemma_space_after_comma_semi(f[i]);
    lemma_space_after_comma_count(f[i]);
    assert(h[j] == space_after_comma(f[i]));
    let out = add_tabs(h);
    assert(out[j] == (if tab_mark(h, j) {
        indent_unit() + h[j]
    } else {
        h[j]
    }));
    lemma_indent_semi(h[j]);
    assert(format_spec(lines) == out);
    assert(0 <= j < format_spec(lines).len() && format_spec(lines)[j].len() > 0 && format_spec(
        lines,
    )[j].last() == ';' && count_semis(format_spec(lines)[j]) == 1);
}

/// The head of the blank-insertion pass is its input's head.
proof fn lemma_blank_after_head(lines: Seq<Seq<char>>)
    requires
        lines.len() > 0,
    ensures
        blank_after_stmts(lines).len() > 0,
        blank_after_stmts(lines)[0] == lines[0],
{
    lemma_blank_after_stmts_len(lines);
}

/// Every non-empty line of the blank-insertion pass's output is a line of
/// its input; a line that ends no statement keeps its successor and its
/// position at the document's end.
proof fn lemma_blank_after_inverse(f: Seq<Seq<char>>, j: int)
    requires
        0 <= j < blank_after_stmts(f).len(),
        blank_after_stmts(f)[j].len() > 0,
    ensures
        exists|i: int|
            {
                let g = blank_after_stmts(f);
                &&& 0 <= i < f.len()
                &&& g[j] == #[trigger] f[i]
                &&& (!(f[i].contains(';') || containsi(f[i], "begin"@)) ==> ((j == g.len() - 1 <==> i
                    == f.len() - 1) && (j + 1 < g.len() ==> i + 1 < f.len() && g[j + 1] == f[i
                    + 1])))
            },
    decreases f.len(),
{
    let g = blank_after_stmts(f);
    if f.len() <= 1 {
        assert(g == f);
        assert(g[j] == f[j]);
        assert(0 <= j < f.len() && g[j] == f[j] && (!(f[j].contains(';') || containsi(
            f[j],
            "begin"@,
        )) ==> ((j == g.len() - 1 <==> j == f.len() - 1) && (j + 1 < g.len() ==> j + 1 < f.len()
            && g[j + 1] == f[j + 1]))));
    } else {
        let l = f[0];
        let fr = f.drop_first();
        let gr = blank_after_stmts(fr);
        lemma_blank_after_head(fr);
        if (l.contains(';') || containsi(l, "begin"@)) && f[1].len() > 0 {
            assert(g == seq![l, Seq::<char>::empty()] + gr);
            if j == 0 {
                assert(g[0] == f[0]);
                assert(0 <= 0 < f.len() && g[j] == f[0] && (!(f[0].contains(';') || containsi(
                    f[0],
                    "begin"@,
                )) ==> ((j == g.len() - 1 <==> 0 == f.len() - 1) && (j + 1 < g.len() ==> 0 + 1
                    < f.len() && g[j + 1] == f[1int]))));
            } else {
                assert(j != 1);
                assert(g[j] == gr[j - 2]);
                lemma_blank_after_inverse(fr, j - 2);
                let i0 = choose|i0: int|
                    {
                        &&& 0 <= i0 < fr.len()
                        &&& gr[j - 2] == #[trigger] fr[i0]
                        &&& (!(fr[i0].contains(';') || containsi(fr[i0], "begin"@)) ==> ((j - 2
                            == gr.len() - 1 <==> i0 == fr.len() - 1) && (j - 2 + 1 < gr.len()
                            ==> i0 + 1 < fr.len() && gr[j - 2 + 1] == fr[i0 + 1])))
                    };
                let i = i0 + 1;
                assert(f[i] == fr[i0]);
                assert(g[j] == f[i]);
                if !(f[i].contains(';') || containsi(f[i], "begin"@)) {
                    assert(g.len() == gr.len() + 2);
                    assert((j == g.len() - 1 <==> i == f.len() - 1));
                    if j + 1 < g.len() {
                        assert(g[j + 1] == gr[j - 1]);
                        assert(g[j + 1] == f[i + 1]);
                    }
                }
                assert(0 <= i < f.len() && g[j] == f[i] && (!(f[i].contains(';') || containsi(
                    f[i],
                    "begin"@,
                )) ==> ((j == g.len() - 1 <==> i == f.len() - 1) && (j + 1 < g.len() ==> i + 1
                    < f.len() && g[j + 1] == f[i + 1]))));
            }
        } else {
            assert(g == seq![l] + gr);
            if j == 0 {
                assert(g[0] == f[0]);
                assert(g.len() == gr.len() + 1);
                if !(f[0].contains(';') || containsi(f[0], "begin"@)) {
                    assert(gr.len() >= 1);
                    assert(!(0 == g.len() - 1) && !(0 == f.len() - 1));
                    assert(g[1] == gr[0]);
                    assert(gr[0] == fr[0]);
                    assert(g[1] == f[1]);
                }
                assert(0 <= 0 < f.len() && g[j] == f[0] && (!(f[0].contains(';') || containsi(
                    f[0],
                    "begin"@,
                )) ==> ((j == g.len() - 1 <==> 0 == f.len() - 1) && (j + 1 < g.len() ==> 0 + 1
                    < f.len() && g[j + 1] == f[1int]))));
            } else {
                assert(g[j] == gr[j - 1]);
                lemma_blank_after_inverse(fr, j - 1);
                let i0 = choose|i0: int|
                    {
                        &&& 0 <= i0 < fr.len()
                        &&& gr[j - 1] == #[trigger] fr[i0]
                        &&& (!(fr[i0].contains(';') || containsi(fr[i0], "begin"@)) ==> ((j - 1
                            == gr.len() - 1 <==> i0 == fr.len() - 1) && (j - 1 + 1 < gr.len()
                            ==> i0 + 1 < fr.len() && gr[j - 1 + 1] == fr[i0 + 1])))
                    };
                let i = i0 + 1;
                assert(f[i] == fr[i0]);
                assert(g[j] == f[i]);
                if !(f[i].contains(';') || containsi(f[i], "begin"@)) {
                    assert(g.len() == gr.len() + 1);
                    assert((j == g.len() - 1 <==> i == f.len() - 1));
                    if j + 1 < g.len() {
                        assert(g[j + 1] == gr[j]);
                        assert(g[j + 1] == f[i + 1]);
                    }
                }
                assert(0 <= i < f.len() && g[j] == f[i] && (!(f[i].contains(';') || containsi(
                    f[i],
                    "begin"@,
                )) ==> ((j == g.len() - 1 <==> i == f.len() - 1) && (j + 1 < g.len() ==> i + 1
                    < f.len() && g[j + 1] == f[i + 1]))));
            }
        }
    }
}

/// In a document without comment openers, no upward scan finds one.
proof fn lemma_open_above_all_clean(lines: Seq<Seq<char>>, m: int)
    requires
        forall|k: int| 0 <= k < lines.len() ==> !contains_seq(#[trigger] lines[k], "/*"@),
    ensures
        !crate::scan::comment_open_above(lines, m),
    decreases (if m < 0 { 0int } else { m + 1 }),
{
    if 0 <= m < lines.len() {
        lemma_open_above_all_clean(lines, m - 1);
    }
}

/// Law, fourth part: in a document without block-comment markers, once the
/// terminator-insertion and statement-spacing passes have run, every
/// non-empty line that holds no interior terminator, does not open a batch,
/// holds no line comment, and is followed by a blank line or a
/// statement-keyword line or the document's end, ends in exactly one
/// terminator — and the formatted document's line at the same position
/// still does.
pub proof fn lemma_statement_boundary_terminated(lines: Seq<Seq<char>>, j: int)
    requires
        ({
            let a = lines.map_values(|l: Seq<char>| normalize_line(l));
            let b = a.map_values(|l: Seq<char>| wild_line(l));
            let c = b.map_values(|l: Seq<char>| fix_lits(l));
            let d = drop_extra_blanks(c);
            let e = strip_stmt_blanks(d, false);
            let g = blank_after_stmts(apply_semis(e));
            &&& 0 <= j < g.len()
            &&& g[j].len() > 0
            &&& forall|k: int| 0 <= k < g[j].len() - 1 ==> g[j][k] != ';'
            &&& !containsi(g[j], "begin"@)
            &&& !contains_seq(g[j], "//"@)
            &&& forall|k: int|
                0 <= k < g.len() ==> !contains_seq(#[trigger] g[k], "/*"@) && !contains_seq(
                    g[k],
                    "*/"@,
                )
            &&& (j == g.len() - 1 || g[j + 1].len() == 0 || line_starts_with_kw(g[j + 1]))
        }),
    ensures
        ({
            let a = lines.map_values(|l: Seq<char>| normalize_line(l));
            let b = a.map_values(|l: Seq<char>| wild_line(l));
            let c = b.map_values(|l: Seq<char>| fix_lits(l));
            let d = drop_extra_blanks(c);
            let e = strip_stmt_blanks(d, false);
            let g = blank_after_stmts(apply_semis(e));
            &&& g[j].last() == ';'
            &&& count_semis(g[j]) == 1
            &&& format_spec(lines)[j].len() > 0
            &&& format_spec(lines)[j].last() == ';'
            &&& count_semis(format_spec(lines)[j]) == 1
        }),
{
    let a = lines.map_values(|l: Seq<char>| normalize_line(l));
    let b = a.map_values(|l: Seq<char>| wild_line(l));
    let c = b.map_values(|l: Seq<char>| fix_lits(l));
    let d = drop_extra_blanks(c);
    let e = strip_stmt_blanks(d, false);
    let f = apply_semis(e);
    let g = blank_after_stmts(f);
    if g[j].last() != ';' {
        // then the line holds no terminator at all, and the insertion pass
        // must have refused it — yet every condition of the rule holds
        assert(!g[j].contains(';')) by {
            if g[j].contains(';') {
                let k = choose|k: int| 0 <= k < g[j].len() && g[j][k] == ';';
                assert(k == g[j].len() - 1);
                assert(g[j].last() == ';');
            }
        }
        lemma_blank_after_inverse(f, j);
        let i = choose|i: int|
            {
                &&& 0 <= i < f.len()
                &&& g[j] == #[trigger] f[i]
                &&& (!(f[i].contains(';') || containsi(f[i], "begin"@)) ==> ((j == g.len() - 1 <==> i
                    == f.len() - 1) && (j + 1 < g.len() ==> i + 1 < f.len() && g[j + 1] == f[i
                    + 1])))
            };
        assert(f[i] == e[i] && !wants_semi(e, i)) by {
            if wants_semi(e, i) {
                assert(f[i] == e[i].push(';'));
                assert(f[i][f[i].len() - 1] == ';');
                assert(f[i].contains(';'));
            }
        }
        // no line of the document holds a block-comment marker
        assert(forall|i2: int|
            0 <= i2 < e.len() ==> !contains_seq(#[trigger] e[i2], "/*"@) && !contains_seq(
                e[i2],
                "*/"@,
            )) by {
            assert forall|i2: int|
                0 <= i2 < e.len() implies !contains_seq(#[trigger] e[i2], "/*"@) && !contains_seq(
                e[i2],
                "*/"@,
            ) by {
                lemma_apply_semis_markers(e, i2);
                lemma_blank_after_keeps_lines(f, i2);
                let j2 = choose|j2: int| 0 <= j2 < g.len() && g[j2] == f[i2];
            }
        }
        lemma_open_above_all_clean(e, i - 1);
        assert(!crate::scan::in_ml_comment(e[i], i, e));
        // the boundary holds at the insertion pass's level too
        assert(i == e.len() - 1 || e[i + 1].len() == 0 || line_starts_with_kw(e[i + 1])) by {
            if j == g.len() - 1 {
                assert(i == f.len() - 1);
            } else if g[j + 1].len() == 0 {
                assert(g[j + 1] == f[i + 1]);
                if wants_semi(e, i + 1) {
                    assert(f[i + 1] == e[i + 1].push(';'));
                } else {
                    assert(f[i + 1] == e[i + 1]);
                }
            } else {
                assert(line_starts_with_kw(g[j + 1]));
                assert(g[j + 1] == f[i + 1]);
                if wants_semi(e, i + 1) {
                    assert(f[i + 1] == e[i + 1].push(';'));
                    lemma_kw_push_semi_contra(e[i + 1]);
                } else {
                    assert(f[i + 1] == e[i + 1]);
                }
            }
        }
        assert(wants_semi(e, i));
        assert(false);
    }
    // exactly one terminator: the others could only sit earlier on the line
    assert(count_semis(g[j]) == 1) by {
        assert(g[j].drop_last().len() == g[j].len() - 1);
        assert(!g[j].drop_last().contains(';')) by {
            if g[j].drop_last().contains(';') {
                let k = choose|k: int|
                    0 <= k < g[j].drop_last().len() && g[j].drop_last()[k] == ';';
                assert(g[j][k] == ';');
            }
        }
        lemma_count_semis_zero(g[j].drop_last());
    }
    // the spacing and indentation passes carry the terminator to the output
    let h = g.map_values(|l: Seq<char>| space_after_comma(l));
    lemma_space_after_comma_semi(g[j]);
    lemma_space_after_comma_count(g[j]);
    assert(h[j] == space_after_comma(g[j]));
    let out = add_tabs(h);
    assert(out[j] == (if tab_mark(h, j) {
        indent_unit() + h[j]
    } else {
        h[j]
    }));
    lemma_indent_semi(h[j]);
    assert(format_spec(lines) == out);
}

/// A line whose first token is no statement keyword does not become one by
/// gaining a terminator.
proof fn lemma_kw_push_semi_contra(x: Seq<char>)
    requires
        line_starts_with_kw(x.push(';')),
    ensures
        line_starts_with_kw(x),
{
    if !line_starts_with_kw(x) {
        lemma_kw_push_semi(x);
    }
}

/// Law: collapsing space runs is idempotent.
pub proof fn lemma_collapse_spaces_idempotent(s: Seq<char>)
    ensures
        collapse_spaces(collapse_spaces(s)) == collapse_spaces(s),
{
    lemma_collapse_no_double(s);
    lemma_collapse_fixed(collapse_spaces(s));
}

/// No two adjacent spaces survive the collapse pass.
proof fn lemma_collapse_no_double(s: Seq<char>)
    ensures
        forall|i: int|
            1 <= i < collapse_spaces(s).len() ==> !(#[trigger] collapse_spaces(s)[i] == ' '
                && collapse_spaces(s)[i - 1] == ' '),
    decreases s.len(),
{
    if s.len() > 0 {
        lemma_collapse_no_double(s.drop_last());
        let r = collapse_spaces(s.drop_last());
        if !(s.last() == ' ' && r.len() > 0 && r.last() == ' ') {
            assert forall|i: int|
                1 <= i < collapse_spaces(s).len() implies !(#[trigger] collapse_spaces(s)[i] == ' '
                && collapse_spaces(s)[i - 1] == ' ') by {
                if i < r.len() {
                    assert(collapse_spaces(s)[i] == r[i]);
                    assert(collapse_spaces(s)[i - 1] == r[i - 1]);
                } else {
                    assert(i == r.len());
                    assert(collapse_spaces(s)[i] == s.last());
                    if r.len() > 0 {
                        assert(collapse_spaces(s)[i - 1] == r.last());
                    }
                }
            }
        }
    }
}

/// A line without adjacent spaces passes the collapse pass unchanged.
proof fn lemma_collapse_fixed(t: Seq<char>)
    requires
        forall|i: int| 1 <= i < t.len() ==> !(#[trigger] t[i] == ' ' && t[i - 1] == ' '),
    ensures
        collapse_spaces(t) == t,
    decreases t.len(),
{
    if t.len() > 0 {
        lemma_collapse_fixed(t.drop_last());
        if t.len() >= 2 {
            assert(t.drop_last().last() == t[t.len() - 2]);
            assert(!(t[t.len() - 1] == ' ' && t[t.len() - 2] == ' '));
        }
        assert(collapse_spaces(t) =~= t);
    }
}

/// Law: removing duplicate terminators is idempotent.
pub proof fn lemma_dedup_semis_idempotent(s: Seq<char>)
    ensures
        dedup_semis(dedup_semis(s)) == dedup_semis(s),
{
    lemma_dedup_no_double(s);
    lemma_dedup_fixed(dedup_semis(s));
}

proof fn lemma_dedup_no_double(s: Seq<char>)
    ensures
        forall|i: int|
            1 <= i < dedup_semis(s).len() ==> !(#[trigger] dedup_semis(s)[i] == ';'
                && dedup_semis(s)[i - 1] == ';'),
    decreases s.len(),
{
    if s.len() > 0 {
        lemma_dedup_no_double(s.drop_last());
        let r = dedup_semis(s.drop_last());
        if !(s.last() == ';' && r.len() > 0 && r.last() == ';') {
            assert forall|i: int|
                1 <= i < dedup_semis(s).len() implies !(#[trigger] dedup_semis(s)[i] == ';'
                && dedup_semis(s)[i - 1] == ';') by {
                if i < r.len() {
                    assert(dedup_semis(s)[i] == r[i]);
                    assert(dedup_semis(s)[i - 1] == r[i - 1]);
                } else {
                    assert(i == r.len());
                    assert(dedup_semis(s)[i] == s.last());
                    if r.len() > 0 {
                        assert(dedup_semis(s)[i - 1] == r.last());
                    }
                }
            }
        }
    }
}

proof fn lemma_dedup_fixed(t: Seq<char>)
    requires
        forall|i: int| 1 <= i < t.len() ==> !(#[trigger] t[i] == ';' && t[i - 1] == ';'),
    ensures
        dedup_semis(t) == t,
    decreases t.len(),
{
    if t.len() > 0 {
        lemma_dedup_fixed(t.drop_last());
        if t.len() >= 2 {
            assert(t.drop_last().last() == t[t.len() - 2]);
            assert(!(t[t.len() - 1] == ';' && t[t.len() - 2] == ';'));
        }
        assert(dedup_semis(t) =~= t);
    }
}

/// Law: trimming is idempotent.
pub proof fn lemma_trim_idempotent(s: Seq<char>)
    ensures
        trim_spec(trim_spec(s)) == trim_spec(s),
{
    lemma_trim_ends_clean(s);
    let t = trim_spec(s);
    if t.len() > 0 {
        assert(trim_start_spec(t) == t);
        assert(trim_end_spec(t) == t);
    } else {
        assert(trim_start_spec(t) == t);
        assert(trim_end_spec(t) == t);
    }
}

/// A trimmed line neither starts nor ends with whitespace.
proof fn lemma_trim_ends_clean(s: Seq<char>)
    ensures
        trim_spec(s).len() > 0 ==> !is_ws(trim_spec(s)[0]),
        trim_spec(s).len() > 0 ==> !is_ws(trim_spec(s).last()),
{
    lemma_trim_start_head(s);
    lemma_trim_end_tail(trim_start_spec(s));
    lemma_trim_end_head(trim_start_spec(s));
}

proof fn lemma_trim_start_head(s: Seq<char>)
    ensures
        trim_start_spec(s).len() > 0 ==> !is_ws(trim_start_spec(s)[0]),
    decreases s.len(),
{
    if s.len() > 0 && is_ws(s[0]) {
        lemma_trim_start_head(s.drop_first());
    }
}

proof fn lemma_trim_end_tail(s: Seq<char>)
    ensures
        trim_end_spec(s).len() > 0 ==> !is_ws(trim_end_spec(s).last()),
    decreases s.len(),
{
    if s.len() > 0 && is_ws(s.last()) {
        lemma_trim_end_tail(s.drop_last());
    }
}

proof fn lemma_trim_end_head(s: Seq<char>)
    ensures
        trim_end_spec(s).len() > 0 ==> trim_end_spec(s)[0] == s[0],
    decreases s.len(),
{
    if s.len() > 0 && is_ws(s.last()) {
        lemma_trim_end_head(s.drop_last());
    }
}

/// A closing punctuation character.
pub open spec fn is_closer(c: char) -> bool {
    c == ';' || c == ',' || c == ')' || c == '>'
}

/// No space stands before closing punctuation or another space.
pub open spec fn no_space_before_closer(t: Seq<char>) -> bool {
    forall|i: int| 1 <= i < t.len() ==> !((is_closer(#[trigger] t[i]) || t[i] == ' ') && t[i - 1] == ' ')
}

/// No space stands after an opening bracket.
pub open spec fn no_space_after_opener(t: Seq<char>) -> bool {
    forall|i: int| 1 <= i < t.len() ==> !(#[trigger] t[i] == ' ' && (t[i - 1] == '(' || t[i - 1] == '<'))
}

proof fn lemma_sb_output_clean(s: Seq<char>)
    ensures
        no_space_before_closer(strip_space_before_wild(s)),
    decreases s.len(),
{
    if s.len() > 0 {
        lemma_sb_output_clean(s.drop_last());
        let r = strip_space_before_wild(s.drop_last());
        let c = s.last();
        if is_closer(c) && r.len() > 0 && r.last() == ' ' {
            let out = r.drop_last().push(c);
            assert forall|i: int|
                1 <= i < out.len() implies !((is_closer(#[trigger] out[i]) || out[i] == ' ')
                && out[i - 1] == ' ') by {
                if i < out.len() - 1 {
                    assert(out[i] == r[i]);
                    assert(out[i - 1] == r[i - 1]);
                } else {
                    assert(out[i] == c);
                    if r.len() >= 2 {
                        assert(out[i - 1] == r[r.len() - 2]);
                        // r has no double space, so the char before its
                        // trailing space is not a space
                        assert(!((is_closer(r[r.len() - 1]) || r[r.len() - 1] == ' ') && r[r.len()
                            - 2] == ' '));
                    }
                }
            }
        } else if c == ' ' && r.len() > 0 && r.last() == ' ' {
        } else {
            let out = r.push(c);
            assert forall|i: int|
                1 <= i < out.len() implies !((is_closer(#[trigger] out[i]) || out[i] == ' ')
                && out[i - 1] == ' ') by {
                if i < out.len() - 1 {
                    assert(out[i] == r[i]);
                    assert(out[i - 1] == r[i - 1]);
                } else {
                    assert(out[i] == c);
                    if r.len() > 0 {
                        assert(out[i - 1] == r.last());
                    }
                }
            }
        }
    }
}

proof fn lemma_sb_fixed(t: Seq<char>)
    requires
        no_space_before_closer(t),
    ensures
        strip_space_before_wild(t) == t,
    decreases t.len(),
{
    if t.len() > 0 {
        assert(forall|i: int|
            1 <= i < t.drop_last().len() ==> !((is_closer(#[trigger] t.drop_last()[i])
                || t.drop_last()[i] == ' ') && t.drop_last()[i - 1] == ' '));
        lemma_sb_fixed(t.drop_last());
        if t.len() >= 2 {
            assert(!((is_closer(t[t.len() - 1]) || t[t.len() - 1] == ' ') && t[t.len() - 2] == ' '));
            assert(t.drop_last().last() == t[t.len() - 2]);
        }
        assert(strip_space_before_wild(t) =~= t);
    }
}

proof fn lemma_sa_output_clean(s: Seq<char>)
    ensures
        no_space_after_opener(strip_space_after_wild(s)),
    decreases s.len(),
{
    if s.len() > 0 {
        lemma_sa_output_clean(s.drop_last());
        let r = strip_space_after_wild(s.drop_last());
        let c = s.last();
        if !(c == ' ' && r.len() > 0 && (r.last() == '(' || r.last() == '<')) {
            let out = r.push(c);
            assert forall|i: int|
                1 <= i < out.len() implies !(#[trigger] out[i] == ' ' && (out[i - 1] == '('
                || out[i - 1] == '<')) by {
                if i < out.len() - 1 {
                    assert(out[i] == r[i]);
                    assert(out[i - 1] == r[i - 1]);
                } else {
                    assert(out[i] == c);
                    if r.len() > 0 {
                        assert(out[i - 1] == r.last());
                    }
                }
            }
        }
    }
}

proof fn lemma_sa_fixed(t: Seq<char>)
    requires
        no_space_after_opener(t),
    ensures
        strip_space_after_wild(t) == t,
    decreases t.len(),
{
    if t.len() > 0 {
        assert(forall|i: int|
            1 <= i < t.drop_last().len() ==> !(#[trigger] t.drop_last()[i] == ' ' && (
            t.drop_last()[i - 1] == '(' || t.drop_last()[i - 1] == '<')));
        lemma_sa_fixed(t.drop_last());
        if t.len() >= 2 {
            assert(!(t[t.len() - 1] == ' ' && (t[t.len() - 2] == '(' || t[t.len() - 2] == '<')));
            assert(t.drop_last().last() == t[t.len() - 2]);
        }
        assert(strip_space_after_wild(t) =~= t);
    }
}

proof fn lemma_sa_last_space(s: Seq<char>)
    requires
        strip_space_after_wild(s).len() > 0,
        strip_space_after_wild(s).last() == ' ',
    ensures
        s.len() > 0 && s.last() == ' ',
{
}

proof fn lemma_sa_preserves_sb_clean(s: Seq<char>)
    requires
        no_space_before_closer(s),
    ensures
        no_space_before_closer(strip_space_after_wild(s)),
    decreases s.len(),
{
    if s.len() > 0 {
        assert(forall|i: int|
            1 <= i < s.drop_last().len() ==> !((is_closer(#[trigger] s.drop_last()[i])
                || s.drop_last()[i] == ' ') && s.drop_last()[i - 1] == ' '));
        lemma_sa_preserves_sb_clean(s.drop_last());
        let r = strip_space_after_wild(s.drop_last());
        let c = s.last();
        if !(c == ' ' && r.len() > 0 && (r.last() == '(' || r.last() == '<')) {
            let out = r.push(c);
            assert forall|i: int|
                1 <= i < out.len() implies !((is_closer(#[trigger] out[i]) || out[i] == ' ')
                && out[i - 1] == ' ') by {
                if i < out.len() - 1 {
                    assert(out[i] == r[i]);
                    assert(out[i - 1] == r[i - 1]);
                } else {
                    assert(out[i] == c);
                    if r.len() > 0 && r.last() == ' ' {
                        // the surviving trailing space is the last
                        // character of the shorter line, so the pair
                        // already stood in `s`
                        lemma_sa_last_space(s.drop_last());
                        assert(s.drop_last().last() == s[s.len() - 2]);
                        assert(!((is_closer(s[s.len() - 1]) || s[s.len() - 1] == ' ') && s[s.len()
                            - 2] == ' '));
                    }
                }
            }
        }
    }
}

/// Law: the punctuation-spacing rewrite is idempotent: once the stray
/// spaces around punctuation are removed, removing them again changes
/// nothing.
pub proof fn lemma_wild_line_idempotent(l: Seq<char>)
    ensures
        wild_line(wild_line(l)) == wild_line(l),
{
    let u = strip_space_before_wild(l);
    let w = strip_space_after_wild(u);
    lemma_sb_output_clean(l);
    lemma_sa_preserves_sb_clean(u);
    lemma_sa_output_clean(u);
    lemma_sb_fixed(w);
    lemma_sa_fixed(w);
}

/// Every comma not at the line's end is followed by a space.
pub open spec fn comma_spaced(t: Seq<char>) -> bool {
    forall|i: int| 1 <= i < t.len() ==> (#[trigger] t[i - 1] == ',' ==> t[i] == ' ')
}

proof fn lemma_comma_output_spaced(s: Seq<char>)
    ensures
        comma_spaced(space_after_comma(s)),
    decreases s.len(),
{
    if s.len() > 0 {
        lemma_comma_output_spaced(s.drop_last());
        let r = space_after_comma(s.drop_last());
        let c = s.last();
        if c != ' ' && r.len() > 0 && r.last() == ',' {
            let out = r.push(' ').push(c);
            assert forall|i: int|
                1 <= i < out.len() implies (#[trigger] out[i - 1] == ',' ==> out[i] == ' ') by {
                if i < r.len() {
                    assert(out[i] == r[i]);
                    assert(out[i - 1] == r[i - 1]);
                } else if i == r.len() {
                    assert(out[i] == ' ');
                } else {
                    assert(out[i - 1] == ' ');
                }
            }
        } else {
            let out = r.push(c);
            assert forall|i: int|
                1 <= i < out.len() implies (#[trigger] out[i - 1] == ',' ==> out[i] == ' ') by {
                if i < out.len() - 1 {
                    assert(out[i] == r[i]);
                    assert(out[i - 1] == r[i - 1]);
                } else {
                    assert(out[i] == c);
                    if r.len() > 0 {
                        assert(out[i - 1] == r.last());
                    }
                }
            }
        }
    }
}

proof fn lemma_comma_fixed(t: Seq<char>)
    requires
        comma_spaced(t),
    ensures
        space_after_comma(t) == t,
    decreases t.len(),
{
    if t.len() > 0 {
        assert(forall|i: int|
            1 <= i < t.drop_last().len() ==> (#[trigger] t.drop_last()[i - 1] == ',' ==> t.drop_last()[i]
                == ' '));
        lemma_comma_fixed(t.drop_last());
        if t.len() >= 2 {
            assert(t[t.len() - 2] == ',' ==> t[t.len() - 1] == ' ');
            assert(t.drop_last().last() == t[t.len() - 2]);
        }
        assert(space_after_comma(t) =~= t);
    }
}

/// Law: comma spacing is idempotent: once every comma is followed by a
/// space, the pass changes nothing.
pub proof fn lemma_space_after_comma_idempotent(l: Seq<char>)
    ensures
        space_after_comma(space_after_comma(l)) == space_after_comma(l),
{
    lemma_comma_output_spaced(l);
    lemma_comma_fixed(space_after_comma(l));
}

/// No two adjacent spaces.
pub open spec fn no_double_space(t: Seq<char>) -> bool {
    forall|i: int| 1 <= i < t.len() ==> !(#[trigger] t[i] == ' ' && t[i - 1] == ' ')
}

/// No two adjacent terminators.
pub open spec fn no_double_semi(t: Seq<char>) -> bool {
    forall|i: int| 1 <= i < t.len() ==> !(#[trigger] t[i] == ';' && t[i - 1] == ';')
}

proof fn lemma_collapse_ends(s: Seq<char>)
    requires
        s.len() > 0,
    ensures
        collapse_spaces(s).len() > 0,
        collapse_spaces(s)[0] == s[0],
        s.last() != ' ' ==> collapse_spaces(s).last() == s.last(),
    decreases s.len(),
{
    let r = collapse_spaces(s.drop_last());
    if s.len() > 1 {
        lemma_collapse_ends(s.drop_last());
        if !(s.last() == ' ' && r.len() > 0 && r.last() == ' ') {
            assert(collapse_spaces(s) == r.push(s.last()));
            assert(r.push(s.last())[0] == r[0]);
        }
    } else {
        assert(s.drop_last() =~= Seq::<char>::empty());
        assert(r.len() == 0);
        assert(collapse_spaces(s) == r.push(s.last()));
        assert(r.push(s.last())[0] == s[0]);
    }
}

proof fn lemma_dedup_ends(s: Seq<char>)
    requires
        s.len() > 0,
    ensures
        dedup_semis(s).len() > 0,
        dedup_semis(s)[0] == s[0],
        s.last() != ' ' ==> dedup_semis(s).last() != ' ',
    decreases s.len(),
{
    let r = dedup_semis(s.drop_last());
    if s.len() > 1 {
        lemma_dedup_ends(s.drop_last());
        if !(s.last() == ';' && r.len() > 0 && r.last() == ';') {
            assert(dedup_semis(s) == r.push(s.last()));
            assert(r.push(s.last())[0] == r[0]);
        }
    } else {
        assert(s.drop_last() =~= Seq::<char>::empty());
        assert(r.len() == 0);
        assert(dedup_semis(s) == r.push(s.last()));
        assert(r.push(s.last())[0] == s[0]);
    }
}

proof fn lemma_dedup_last_space(s: Seq<char>)
    requires
        dedup_semis(s).len() > 0,
        dedup_semis(s).last() == ' ',
    ensures
        s.len() > 0 && s.last() == ' ',
{
}

proof fn lemma_dedup_preserves_no_double_space(s: Seq<char>)
    requires
        no_double_space(s),
    ensures
        no_double_space(dedup_semis(s)),
    decreases s.len(),
{
    if s.len() > 0 {
        assert(forall|i: int|
            1 <= i < s.drop_last().len() ==> !(#[trigger] s.drop_last()[i] == ' '
                && s.drop_last()[i - 1] == ' '));
        lemma_dedup_preserves_no_double_space(s.drop_last());
        let r = dedup_semis(s.drop_last());
        let c = s.last();
        if !(c == ';' && r.len() > 0 && r.last() == ';') {
            let out = r.push(c);
            assert forall|i: int|
                1 <= i < out.len() implies !(#[trigger] out[i] == ' ' && out[i - 1] == ' ') by {
                if i < out.len() - 1 {
                    assert(out[i] == r[i]);
                    assert(out[i - 1] == r[i - 1]);
                } else {
                    assert(out[i] == c);
                    if r.len() > 0 && r.last() == ' ' {
                        lemma_dedup_last_space(s.drop_last());
                        assert(s.drop_last().last() == s[s.len() - 2]);
                        assert(!(s[s.len() - 1] == ' ' && s[s.len() - 2] == ' '));
                    }
                }
            }
        }
    }
}

proof fn lemma_trim_fixed_of_clean(t: Seq<char>)
    requires
        t.len() > 0 ==> !is_ws(t[0]),
        t.len() > 0 ==> !is_ws(t.last()),
    ensures
        trim_spec(t) == t,
{
}

/// Law: the first pipeline stage, trimming plus space and terminator
/// collapse, is idempotent.
pub proof fn lemma_normalize_line_idempotent(l: Seq<char>)
    ensures
        normalize_line(normalize_line(l)) == normalize_line(l),
{
    let a = trim_spec(l);
    let b = collapse_spaces(a);
    let t = dedup_semis(b);
    // the stage's output neither starts nor ends with whitespace
    lemma_trim_ends_clean(l);
    if a.len() > 0 {
        lemma_collapse_ends(a);
        lemma_dedup_ends(b);
        assert(t.len() > 0 && !is_ws(t[0]) && !is_ws(t.last())) by {
            assert(t[0] == b[0] && b[0] == a[0]);
            assert(b.last() == a.last());
            if is_ws(t.last()) {
                assert(t.last() == ' ' || t.last() == '\t' || t.last() == '\r');
                if t.last() == ' ' {
                    lemma_dedup_last_space(b);
                } else {
                    // a tab or carriage return at the end survives every
                    // pass unchanged, contradicting the trimmed input
                    lemma_dedup_ends(b);
                }
            }
        }
    }
    lemma_trim_fixed_of_clean(t);
    // the output holds no space runs and no terminator runs
    lemma_collapse_no_double(a);
    lemma_dedup_preserves_no_double_space(b);
    lemma_collapse_fixed(t);
    lemma_dedup_no_double(b);
    lemma_dedup_fixed(dedup_semis(b));
}

proof fn lemma_find_quote_props(s: Seq<char>)
    ensures
        0 <= find_quote(s) <= s.len(),
        find_quote(s) < s.len() ==> is_quote(s[find_quote(s)]),
        forall|k: int| 0 <= k < find_quote(s) ==> !is_quote(s[k]),
    decreases s.len(),
{
    if s.len() > 0 && !is_quote(s[0]) {
        lemma_find_quote_props(s.drop_first());
        assert forall|k: int| 0 <= k < find_quote(s) implies !is_quote(s[k]) by {
            if k >= 1 {
                assert(!is_quote(s.drop_first()[k - 1]));
            }
        }
    }
}

proof fn lemma_trim_start_no_char(x: Seq<char>, c: char)
    requires
        !x.contains(c),
    ensures
        !trim_start_spec(x).contains(c),
    decreases x.len(),
{
    if x.len() > 0 && is_ws(x[0]) {
        assert(!x.drop_first().contains(c)) by {
            if x.drop_first().contains(c) {
                let k = choose|k: int| 0 <= k < x.drop_first().len() && x.drop_first()[k] == c;
                assert(x[k + 1] == c);
            }
        }
        lemma_trim_start_no_char(x.drop_first(), c);
    }
}

proof fn lemma_trim_end_no_char(x: Seq<char>, c: char)
    requires
        !x.contains(c),
    ensures
        !trim_end_spec(x).contains(c),
    decreases x.len(),
{
    if x.len() > 0 && is_ws(x.last()) {
        assert(!x.drop_last().contains(c)) by {
            if x.drop_last().contains(c) {
                let k = choose|k: int| 0 <= k < x.drop_last().len() && x.drop_last()[k] == c;
                assert(x[k] == c);
            }
        }
        lemma_trim_end_no_char(x.drop_last(), c);
    }
}

proof fn lemma_trim_no_char(x: Seq<char>, c: char)
    requires
        !x.contains(c),
    ensures
        !trim_spec(x).contains(c),
{
    lemma_trim_start_no_char(x, c);
    lemma_trim_end_no_char(trim_start_spec(x), c);
}

/// Law: trimming the interiors of quoted spans is idempotent.
pub proof fn lemma_fix_lits_idempotent(s: Seq<char>)
    ensures
        fix_lits(fix_lits(s)) == fix_lits(s),
    decreases s.len(),
{
    lemma_find_quote_props(s);
    let i = find_quote(s);
    if i >= s.len() {
        // no quote: the line is untouched and stays untouched
    } else {
        let q = s[i];
        let rest = s.skip(i + 1);
        crate::text::lemma_find_char(rest, q);
        let j = find_char(rest, q);
        if j >= rest.len() {
            // unmatched quote: the line is untouched and stays untouched
        } else {
            let interior = rest.take(j);
            let t = trim_spec(interior);
            let f = fix_lits(rest.skip(j + 1));
            let out = s.take(i + 1) + t + seq![q] + fix_lits(rest.skip(j + 1));
            assert(fix_lits(s) == out);
            // the rewritten line opens its first span at the same place
            assert(out[i as int] == q) by {
                assert(out[i as int] == s.take(i + 1)[i as int]);
            }
            assert forall|k: int| 0 <= k < i implies !is_quote(out[k]) by {
                assert(out[k] == s.take(i + 1)[k]);
            }
            lemma_find_quote_is(out, i);
            let rest2 = out.skip(i + 1);
            assert(rest2 =~= t + seq![q] + f);
            // the trimmed interior still holds no quote of the same kind
            assert(!interior.contains(q)) by {
                if interior.contains(q) {
                    let k = choose|k: int| 0 <= k < interior.len() && interior[k] == q;
                    assert(rest[k] == q);
                }
            }
            lemma_trim_no_char(interior, q);
            assert forall|k: int| 0 <= k < t.len() implies rest2[k] != q by {
                assert(rest2[k] == t[k]);
                if t[k] == q {
                    assert(t.contains(q));
                }
            }
            assert(rest2[t.len() as int] == q);
            crate::text::lemma_find_char_is(rest2, q, t.len() as int);
            // the second run trims an already-trimmed interior and, by
            // induction, leaves the already-fixed tail alone
            assert(rest2.take(t.len() as int) =~= t);
            lemma_trim_idempotent(interior);
            assert(rest2.skip(t.len() as int + 1) =~= f);
            lemma_fix_lits_idempotent(rest.skip(j + 1));
            assert(fix_lits(out) == out.take(i + 1) + trim_spec(t) + seq![q] + fix_lits(f));
            assert(out.take(i + 1) =~= s.take(i + 1));
            assert(fix_lits(out) =~= out);
        }
    }
}

/// No blank line follows another blank line or a line ending in an open
/// bracket.
pub open spec fn blanks_pruned(t: Seq<Seq<char>>) -> bool {
    forall|i: int|
        1 <= i < t.len() ==> !((#[trigger] t[i]).len() == 0 && (t[i - 1].len() == 0 || (t[i
            - 1].len() > 0 && t[i - 1].last() == '(')))
}

proof fn lemma_drop_blanks_output_pruned(s: Seq<Seq<char>>)
    ensures
        blanks_pruned(drop_extra_blanks(s)),
    decreases s.len(),
{
    if s.len() > 0 {
        lemma_drop_blanks_output_pruned(s.drop_last());
        let r = drop_extra_blanks(s.drop_last());
        let l = s.last();
        if !(l.len() == 0 && r.len() > 0 && (r.last().len() == 0 || r.last().last() == '(')) {
            let out = r.push(l);
            assert forall|i: int|
                1 <= i < out.len() implies !((#[trigger] out[i]).len() == 0 && (out[i - 1].len()
                == 0 || (out[i - 1].len() > 0 && out[i - 1].last() == '('))) by {
                if i < out.len() - 1 {
                    assert(out[i] == r[i]);
                    assert(out[i - 1] == r[i - 1]);
                } else {
                    assert(out[i] == l);
                    if r.len() > 0 {
                        assert(out[i - 1] == r.last());
                    }
                }
            }
        }
    }
}

proof fn lemma_drop_blanks_fixed(t: Seq<Seq<char>>)
    requires
        blanks_pruned(t),
    ensures
        drop_extra_blanks(t) == t,
    decreases t.len(),
{
    if t.len() > 0 {
        assert(forall|i: int|
            1 <= i < t.drop_last().len() ==> !((#[trigger] t.drop_last()[i]).len() == 0 && (
            t.drop_last()[i - 1].len() == 0 || (t.drop_last()[i - 1].len() > 0 && t.drop_last()[i
                - 1].last() == '('))));
        lemma_drop_blanks_fixed(t.drop_last());
        if t.len() >= 2 {
            assert(!(t[t.len() - 1].len() == 0 && (t[t.len() - 2].len() == 0 || (t[t.len()
                - 2].len() > 0 && t[t.len() - 2].last() == '('))));
            assert(t.drop_last().last() == t[t.len() - 2]);
        }
        assert(drop_extra_blanks(t) =~= t);
    }
}

/// Law: pruning blank lines after blank lines and open brackets is
/// idempotent.
pub proof fn lemma_drop_extra_blanks_idempotent(s: Seq<Seq<char>>)
    ensures
        drop_extra_blanks(drop_extra_blanks(s)) == drop_extra_blanks(s),
{
    lemma_drop_blanks_output_pruned(s);
    lemma_drop_blanks_fixed(drop_extra_blanks(s));
}

/// Law: removing blank lines inside open statements is idempotent: the
/// surviving lines drive the statement state machine exactly as before, so
/// a second run removes nothing.
pub proof fn lemma_strip_stmt_blanks_idempotent(s: Seq<Seq<char>>, inside: bool)
    ensures
        strip_stmt_blanks(strip_stmt_blanks(s, inside), inside) == strip_stmt_blanks(s, inside),
    decreases s.len(),
{
    if s.len() > 0 {
        let l = s[0];
        let opened = if !inside && l.len() > 0 && !l.contains(';') {
            true
        } else {
            inside
        };
        let st = if l.contains(';') {
            false
        } else {
            opened
        };
        let rest = strip_stmt_blanks(s.drop_first(), st);
        lemma_strip_stmt_blanks_idempotent(s.drop_first(), st);
        if l.len() == 0 && st {
            // the dropped blank leaves the state unchanged
            assert(st == inside);
        } else {
            let out = seq![l] + rest;
            assert(out[0] == l);
            assert(out.drop_first() =~= rest);
            assert(strip_stmt_blanks(out, inside) == seq![l] + strip_stmt_blanks(rest, st));
        }
    }
}

/// Every line that ends a statement or opens a batch is followed by a
/// blank line, or is last.
pub open spec fn stmts_spaced(t: Seq<Seq<char>>) -> bool {
    forall|i: int|
        0 <= i < t.len() - 1 ==> (((#[trigger] t[i]).contains(';') || containsi(t[i], "begin"@))
            ==> t[i + 1].len() == 0)
}

proof fn lemma_blank_after_output_spaced(s: Seq<Seq<char>>)
    ensures
        stmts_spaced(blank_after_stmts(s)),
    decreases s.len(),
{
    if s.len() > 1 {
        lemma_blank_after_output_spaced(s.drop_first());
        let l = s[0];
        let rest = blank_after_stmts(s.drop_first());
        assert(rest.len() >= 1) by {
            lemma_blank_after_stmts_len(s.drop_first());
        }
        assert(rest[0] == s.drop_first()[0]);
        if (l.contains(';') || containsi(l, "begin"@)) && s[1].len() > 0 {
            let out = seq![l, Seq::<char>::empty()] + rest;
            assert forall|i: int|
                0 <= i < out.len() - 1 implies (((#[trigger] out[i]).contains(';') || containsi(
                out[i],
                "begin"@,
            )) ==> out[i + 1].len() == 0) by {
                if i == 0 {
                    assert(out[1].len() == 0);
                } else if i == 1 {
                    assert(out[1] =~= Seq::<char>::empty());
                    assert(!out[1].contains(';'));
                    assert(!containsi(out[1], "begin"@)) by {
                        reveal_strlit("begin");
                        if containsi(out[1], "begin"@) {
                            let k = choose|k: int|
                                crate::text::match_at(
                                    crate::text::lower(out[1]),
                                    "begin"@,
                                    k,
                                );
                            assert(k + "begin"@.len() <= 0);
                        }
                    }
                } else {
                    assert(out[i] == rest[i - 2]);
                    assert(out[i + 1] == rest[i - 1]);
                }
            }
        } else {
            let out = seq![l] + rest;
            assert forall|i: int|
                0 <= i < out.len() - 1 implies (((#[trigger] out[i]).contains(';') || containsi(
                out[i],
                "begin"@,
            )) ==> out[i + 1].len() == 0) by {
                if i == 0 {
                    assert(out[1] == rest[0]);
                    assert(rest[0] == s[1]);
                } else {
                    assert(out[i] == rest[i - 1]);
                    assert(out[i + 1] == rest[i]);
                }
            }
        }
    }
}

proof fn lemma_blank_after_fixed(t: Seq<Seq<char>>)
    requires
        stmts_spaced(t),
    ensures
        blank_after_stmts(t) == t,
    decreases t.len(),
{
    if t.len() > 1 {
        assert(forall|i: int|
            0 <= i < t.drop_first().len() - 1 ==> (((#[trigger] t.drop_first()[i]).contains(';')
                || containsi(t.drop_first()[i], "begin"@)) ==> t.drop_first()[i + 1].len() == 0));
        lemma_blank_after_fixed(t.drop_first());
        assert(!((t[0].contains(';') || containsi(t[0], "begin"@)) && t[1].len() > 0));
        assert(blank_after_stmts(t) =~= t);
    }
}

/// Law: inserting the blank line after each completed statement is
/// idempotent.
pub proof fn lemma_blank_after_stmts_idempotent(s: Seq<Seq<char>>)
    ensures
        blank_after_stmts(blank_after_stmts(s)) == blank_after_stmts(s),
{
    lemma_blank_after_output_spaced(s);
    lemma_blank_after_fixed(blank_after_stmts(s));
}

proof fn lemma_contains_push_semi(x: Seq<char>, p: Seq<char>)
    requires
        p.len() >= 1,
        p.last() != ';',
    ensures
        contains_seq(x.push(';'), p) == contains_seq(x, p),
{
    if contains_seq(x, p) {
        let k = choose|k: int| crate::text::match_at(x, p, k);
        assert(x.push(';').subrange(k, k + p.len() as int) =~= x.subrange(k, k + p.len() as int));
        assert(crate::text::match_at(x.push(';'), p, k));
    }
    if contains_seq(x.push(';'), p) {
        let k = choose|k: int| crate::text::match_at(x.push(';'), p, k);
        if k + p.len() <= x.len() {
            assert(x.subrange(k, k + p.len() as int) =~= x.push(';').subrange(
                k,
                k + p.len() as int,
            ));
            assert(crate::text::match_at(x, p, k));
        } else {
            // the match would have to end on the appended terminator
            assert(k + p.len() == x.len() + 1);
            assert(x.push(';').subrange(k, k + p.len() as int).last() == ';');
            assert(p.last() == ';');
        }
    }
}

/// A line and the same line with a terminator appended hold the same
/// comment markers.
proof fn lemma_markers_push_semi(x: Seq<char>)
    ensures
        contains_seq(x.push(';'), "/*"@) == contains_seq(x, "/*"@),
        contains_seq(x.push(';'), "*/"@) == contains_seq(x, "*/"@),
{
    reveal_strlit("/*");
    reveal_strlit("*/");
    lemma_contains_push_semi(x, "/*"@);
    lemma_contains_push_semi(x, "*/"@);
}

/// Each line of `apply_semis(e)` is the corresponding input line, or that
/// line with one terminator appended, and holds the same comment markers.
proof fn lemma_apply_semis_markers(e: Seq<Seq<char>>, k: int)
    requires
        0 <= k < e.len(),
    ensures
        contains_seq(apply_semis(e)[k], "/*"@) == contains_seq(e[k], "/*"@),
        contains_seq(apply_semis(e)[k], "*/"@) == contains_seq(e[k], "*/"@),
{
    if wants_semi(e, k) {
        lemma_markers_push_semi(e[k]);
    }
}

proof fn lemma_comment_open_above_semis(e: Seq<Seq<char>>, i: int)
    ensures
        crate::scan::comment_open_above(apply_semis(e), i) == crate::scan::comment_open_above(
            e,
            i,
        ),
    decreases (if i < 0 { 0int } else { i + 1 }),
{
    if 0 <= i < e.len() {
        lemma_apply_semis_markers(e, i);
        lemma_comment_open_above_semis(e, i - 1);
    }
}

proof fn lemma_comment_close_below_semis(e: Seq<Seq<char>>, i: int)
    ensures
        crate::scan::comment_close_below(apply_semis(e), i) == crate::scan::comment_close_below(
            e,
            i,
        ),
    decreases (if i > e.len() { 0int } else { e.len() - i }),
{
    if 0 <= i < e.len() {
        lemma_apply_semis_markers(e, i);
        lemma_comment_close_below_semis(e, i + 1);
    }
}

proof fn lemma_lower_push(x: Seq<char>, c: char)
    ensures
        crate::text::lower(x.push(c)) == crate::text::lower(x).push(crate::text::lower_char(c)),
{
    assert(crate::text::lower(x.push(c)) =~= crate::text::lower(x).push(
        crate::text::lower_char(c),
    ));
}

proof fn lemma_trim_start_push(y: Seq<char>, c: char)
    requires
        !is_ws(c),
    ensures
        trim_start_spec(y).len() > 0 ==> trim_start_spec(y.push(c)) == trim_start_spec(y).push(c),
        trim_start_spec(y).len() == 0 ==> trim_start_spec(y.push(c)) == seq![c],
    decreases y.len(),
{
    if y.len() > 0 && is_ws(y[0]) {
        assert(y.push(c).drop_first() =~= y.drop_first().push(c));
        lemma_trim_start_push(y.drop_first(), c);
    } else if y.len() == 0 {
        assert(y.push(c) =~= seq![c]);
        assert(trim_start_spec(seq![c]) == seq![c]);
    }
}

/// A statement keyword never ends in a terminator.
proof fn lemma_kw_token_no_semi(t: Seq<char>)
    requires
        t.len() > 0,
        t.last() == ';',
    ensures
        !crate::keywords::is_statement_kw(t),
{
    reveal_strlit("use");
    reveal_strlit("select");
    reveal_strlit("insert");
    reveal_strlit("update");
    reveal_strlit("delete");
    reveal_strlit("create");
    reveal_strlit("drop");
    reveal_strlit("alter");
    reveal_strlit("truncate");
    reveal_strlit("grant");
    reveal_strlit("revoke");
    reveal_strlit("list");
    reveal_strlit("begin");
    reveal_strlit("apply");
    reveal_strlit("commit");
}

/// Appending a terminator to a line never makes it open a statement: its
/// first token is unchanged, or gains the terminator and matches no
/// keyword.
proof fn lemma_kw_push_semi(x: Seq<char>)
    requires
        !line_starts_with_kw(x),
    ensures
        !line_starts_with_kw(x.push(';')),
{
    let y = crate::text::lower(x);
    lemma_lower_push(x, ';');
    assert(crate::text::lower(x.push(';')) == y.push(';'));
    let z = trim_start_spec(y);
    lemma_trim_start_push(y, ';');
    if z.len() == 0 {
        // a blank line gains a lone terminator as its only token
        assert(trim_start_spec(y.push(';')) == seq![';']);
        assert(!is_ws(';'));
        crate::text::lemma_find_ws_is(seq![';'], 1);
        let t = crate::text::first_token(y.push(';'));
        assert(t =~= seq![';']);
        lemma_kw_token_no_semi(t);
    } else {
        assert(trim_start_spec(y.push(';')) == z.push(';'));
        crate::text::lemma_find_ws_bounds(z);
        let fw = crate::text::find_ws(z);
        if fw < z.len() {
            // the first whitespace, and so the first token, is unchanged
            assert(forall|k: int| 0 <= k < fw ==> !is_ws(z.push(';')[k]));
            assert(is_ws(z.push(';')[fw]));
            crate::text::lemma_find_ws_is(z.push(';'), fw);
            assert(z.push(';').take(fw) =~= z.take(fw));
        } else {
            // the whole token gains the terminator and is no keyword
            assert(forall|k: int| 0 <= k < z.push(';').len() ==> !is_ws(z.push(';')[k])) by {
                assert(forall|k: int| 0 <= k < z.len() ==> !is_ws(z[k]));
                assert(!is_ws(z.push(';').last()));
                assert(forall|k: int|
                    0 <= k < z.len() ==> z.push(';')[k] == z[k]);
            }
            crate::text::lemma_find_ws_is(z.push(';'), z.len() as int + 1);
            let t = crate::text::first_token(y.push(';'));
            assert(t =~= z.push(';'));
            assert(t.last() == ';');
            lemma_kw_token_no_semi(t);
        }
    }
}

/// Law: inserting missing statement terminators is idempotent.  A line
/// that received its terminator now carries one; appending terminators
/// neither blanks a line, creates a comment marker, nor turns a line into
/// a statement opener, so no boundary changes and the second run appends
/// nothing.
pub proof fn lemma_apply_semis_idempotent(e: Seq<Seq<char>>)
    ensures
        apply_semis(apply_semis(e)) == apply_semis(e),
{
    let f = apply_semis(e);
    assert forall|i: int| 0 <= i < f.len() implies !wants_semi(f, i) by {
        if wants_semi(e, i) {
            assert(f[i] == e[i].push(';'));
            assert(f[i].last() == ';');
            assert(f[i].contains(';'));
        } else if !f[i].contains(';') {
            assert(f[i] == e[i]);
            if f[i].len() > 0 && !containsi(f[i], "begin"@) && !contains_seq(f[i], "//"@)
                && !contains_seq(f[i], "/*"@) && !contains_seq(f[i], "*/"@) {
                // the line itself allows a terminator, so in the first run
                // the comment scan or the boundary refused it
                lemma_comment_open_above_semis(e, i - 1);
                lemma_comment_close_below_semis(e, i + 1);
                if !crate::scan::in_ml_comment(e[i], i, e) {
                    assert(!(i == e.len() - 1 || e[i + 1].len() == 0 || line_starts_with_kw(
                        e[i + 1],
                    )));
                    if wants_semi(e, i + 1) {
                        assert(f[i + 1] == e[i + 1].push(';'));
                        lemma_kw_push_semi(e[i + 1]);
                    } else {
                        assert(f[i + 1] == e[i + 1]);
                    }
                }
            }
        }
    }
    assert(apply_semis(f) =~~= f);
}

/// One replacement edit: the text between the start and end positions is
/// replaced by `new_text`.
pub struct FormatEdit {
    pub start_line: usize,
    pub start_char: usize,
    pub end_line: usize,
    pub end_char: usize,
    pub new_text: String,
}

/// The edit at position `i` replaces the old line `i` (or appends a fresh
/// line past the old document's end) with the formatted line `i`.
pub open spec fn line_edit_ok(
    e: FormatEdit,
    old_lines: Seq<Seq<char>>,
    new_lines: Seq<Seq<char>>,
    i: int,
) -> bool {
    &&& e.start_line == i
    &&& e.start_char == 0
    &&& e.end_line == i
    &&& e.end_char == (if i < old_lines.len() {
        old_lines[i].len()
    } else {
        new_lines[i].len()
    })
    &&& e.new_text@ == new_lines[i]
}

/// The trailing edit deletes everything of the old document that stands
/// past the end of the last formatted line.
pub open spec fn trailing_edit_ok(
    e: FormatEdit,
    old_lines: Seq<Seq<char>>,
    new_lines: Seq<Seq<char>>,
) -> bool {
    &&& e.start_line == new_lines.len() - 1
    &&& e.start_char == old_lines[new_lines.len() - 1].len()
    &&& e.end_line == old_lines.len() - 1
    &&& e.end_char == old_lines[old_lines.len() - 1].len()
    &&& e.new_text@ == Seq::<char>::empty()
}

/// Formats the document and renders the result as one replacement edit per
/// line, plus a trailing deletion when formatting shortened the document.
pub fn format_file(lines: &Vec<Vec<char>>) -> (r: Vec<FormatEdit>)
    requires
        lines@.len() > 0,
    ensures
        ({
            let old_lines = lines.deep_view();
            let new_lines = format_spec(old_lines);
            let trailing = new_lines.len() - 1 < old_lines.len();
            &&& r@.len() == new_lines.len() + (if trailing {
                1int
            } else {
                0int
            })
            &&& forall|i: int|
                0 <= i < new_lines.len() ==> line_edit_ok(#[trigger] r@[i], old_lines, new_lines, i)
            &&& (trailing ==> trailing_edit_ok(r@[r@.len() - 1], old_lines, new_lines))
        }),
{
    let new_lines = format_lines(lines);
    proof {
        lemma_format_nonempty(lines.deep_view());
    }
    let mut r: Vec<FormatEdit> = Vec::new();
    let mut i: usize = 0;
    while i < new_lines.len()
        invariant
            i <= new_lines@.len(),
            new_lines.deep_view() == format_spec(lines.deep_view()),
            r@.len() == i,
            forall|k: int|
                0 <= k < i ==> line_edit_ok(
                    #[trigger] r@[k],
                    lines.deep_view(),
                    new_lines.deep_view(),
                    k,
                ),
        decreases new_lines.len() - i,
    {
        proof {
            assert(new_lines.deep_view()[i as int] == new_lines@[i as int]@);
        }
        let end_char = if i < lines.len() {
            proof {
                assert(lines.deep_view()[i as int] == lines@[i as int]@);
            }
            lines[i].len()
        } else {
            new_lines[i].len()
        };
        let e = FormatEdit {
            start_line: i,
            start_char: 0,
            end_line: i,
            end_char,
            new_text: chars_to_string(&new_lines[i]),
        };
        r.push(e);
        i = i + 1;
    }
    if new_lines.len() - 1 < lines.len() {
        let idx = new_lines.len() - 1;
        proof {
            assert(lines.deep_view()[idx as int] == lines@[idx as int]@);
            assert(lines.deep_view()[lines@.len() - 1] == lines@[lines@.len() - 1]@);
        }
        let e = FormatEdit {
            start_line: idx,
            start_char: lines[idx].len(),
            end_line: lines.len() - 1,
            end_char: lines[lines.len() - 1].len(),
            new_text: chars_to_string(&Vec::new()),
        };
        r.push(e);
    }
    r
}

} // verus!

//! The completion strategy dispatcher: builds the completion entries for a
//! resolved `Context`.  Schema rows are handed in as plain values by the
//! caller; every builder is a pure function of the line, the cursor and
//! those rows.

use vstd::prelude::*;
use crate::text::{
    lower, to_lower, contains_seq, subvec, chars_to_string, to_chars, starts_with,
};
use crate::scan::{containsi, containsi_exec};
use crate::schema::{Table, Column};
use crate::scope::{field_should_edit, should_field_be_edit, from_target, FromTarget,
    from_target_qualified, from_target_bare, from_token_cleaned, latest_keyspace,
    latest_keyspace_spec};
use crate::text::split_char;

verus! {

/// How an entry's text reaches the document.
#[derive(Clone, Copy, PartialEq, Eq, Structural, Debug)]
pub enum EntryKind {
    Keyword,
    Field,
    Value,
    Snippet,
    Variable,
}

/// A replacement range on the cursor's line, in character offsets.
pub struct EditRange {
    pub start: usize,
    pub end: usize,
}

/// What a completion entry inserts: plain text at the cursor, or a
/// replacement of a range of the line.
pub enum EntryText {
    Insert(String),
    Edit(EditRange, String),
}

/// One completion suggestion.
pub struct CompletionEntry {
    pub label: String,
    pub kind: EntryKind,
    pub text: EntryText,
}

/// The mathematical shadow of `EntryText`.
pub enum TextModel {
    Ins(Seq<char>),
    Rep(int, int, Seq<char>),
}

/// The mathematical shadow of a completion entry.
pub struct EntryModel {
    pub label: Seq<char>,
    pub kind: EntryKind,
    pub text: TextModel,
}

pub open spec fn model_of(e: CompletionEntry) -> EntryModel {
    EntryModel {
        label: e.label@,
        kind: e.kind,
        text: match e.text {
            EntryText::Insert(s) => TextModel::Ins(s@),
            EntryText::Edit(r, s) => TextModel::Rep(r.start as int, r.end as int, s@),
        },
    }
}

/// The models of a list of entries, in order.
pub open spec fn models(v: Seq<CompletionEntry>) -> Seq<EntryModel> {
    v.map_values(|e: CompletionEntry| model_of(e))
}

/// Appends the characters of `src` to `dst`.
fn append_chars(dst: &mut Vec<char>, src: &Vec<char>)
    ensures
        final(dst)@ == old(dst)@ + src@,
{
    let mut k: usize = 0;
    while k < src.len()
        invariant
            k <= src@.len(),
            dst@ == old(dst)@ + src@.take(k as int),
        decreases src.len() - k,
    {
        dst.push(src[k]);
        assert(old(dst)@ + src@.take(k as int + 1) =~= (old(dst)@ + src@.take(k as int)).push(
            src@[k as int],
        ));
        k = k + 1;
    }
    assert(old(dst)@ + src@.take(src@.len() as int) =~= old(dst)@ + src@);
}

/// The index of the space closest before the cursor, or 0: the field
/// completion's replacement starts one past it.
pub open spec fn start_offset(s: Seq<char>, i: int) -> int
    decreases (if i < 0 { 0int } else { i }),
{
    if i <= 0 {
        0
    } else if i < s.len() && s[i] == ' ' {
        i
    } else {
        start_offset(s, i - 1)
    }
}

pub fn get_start_offset(line: &Vec<char>, pos: usize) -> (r: usize)
    ensures
        r == start_offset(line@, pos as int),
        r <= pos,
        r == 0 || r < line@.len(),
{
    let mut i: usize = pos;
    loop
        invariant
            i <= pos,
            start_offset(line@, pos as int) == start_offset(line@, i as int),
        decreases i,
    {
        if i == 0 {
            return 0;
        }
        if i < line.len() && line[i] == ' ' {
            return i;
        }
        i = i - 1;
    }
}

/// Where a drop-object completion's replacement begins: one past the space
/// closest before the cursor, or the line's start.
pub open spec fn edit_anchor(s: Seq<char>, i: int) -> int
    decreases (if i < 0 { 0int } else { i }),
{
    if i <= 0 {
        0
    } else if i < s.len() && s[i] == ' ' {
        i + 1
    } else {
        edit_anchor(s, i - 1)
    }
}

fn edit_anchor_exec(line: &Vec<char>, pos: usize) -> (r: usize)
    requires
        pos <= line@.len(),
    ensures
        r == edit_anchor(line@, pos as int),
        r <= line@.len(),
{
    let mut i: usize = pos;
    loop
        invariant
            i <= pos <= line@.len(),
            edit_anchor(line@, pos as int) == edit_anchor(line@, i as int),
        decreases i,
    {
        if i == 0 {
            return 0;
        }
        if i < line.len() && line[i] == ' ' {
            return i + 1;
        }
        i = i - 1;
    }
}

/// The rewrite a field entry performs when it completes the statement: the
/// column, a comma, FROM, the table (qualified unless it lies in the active
/// keyspace), and the terminator.
pub open spec fn col_edit_text(
    ks: Seq<char>,
    tb: Seq<char>,
    co: Seq<char>,
    scope: Option<Seq<char>>,
) -> Seq<char> {
    if scope is Some && scope->0 == ks {
        co + ", FROM "@ + tb + seq![';']
    } else {
        co + ", FROM "@ + ks + seq!['.'] + tb + seq![';']
    }
}

/// Renders the full-statement rewrite for one column.
pub fn column_to_text_edit(column: &Column, latest: Option<&String>) -> (r: String)
    ensures
        ({
            let scope = match latest {
                Some(k) => Some(k@),
                None => None,
            };
            r@ == col_edit_text(
                column.keyspace_name@,
                column.table_name@,
                column.column_name@,
                scope,
            )
        }),
{
    let mut v = to_chars(column.column_name.as_str());
    let comma_from = to_chars(", FROM ");
    append_chars(&mut v, &comma_from);
    let same_scope = match latest {
        Some(k) => {
            let kc = to_chars(k.as_str());
            let ksc = to_chars(column.keyspace_name.as_str());
            crate::text::eq_vec(&kc, &ksc)
        },
        None => false,
    };
    if !same_scope {
        let ksc = to_chars(column.keyspace_name.as_str());
        append_chars(&mut v, &ksc);
        v.push('.');
        assert(v@ =~= column.column_name@ + ", FROM "@ + column.keyspace_name@ + seq!['.']);
    }
    let tbc = to_chars(column.table_name.as_str());
    append_chars(&mut v, &tbc);
    v.push(';');
    proof {
        if same_scope {
            assert(v@ =~= column.column_name@ + ", FROM "@ + column.table_name@ + seq![';']);
        } else {
            assert(v@ =~= column.column_name@ + ", FROM "@ + column.keyspace_name@ + seq!['.']
                + column.table_name@ + seq![';']);
        }
    }
    chars_to_string(&v)
}

/// A field entry's label: the column and its qualified table.
pub open spec fn col_label(ks: Seq<char>, tb: Seq<char>, co: Seq<char>) -> Seq<char> {
    co + " | "@ + ks + seq!['.'] + tb
}

fn col_label_exec(column: &Column) -> (r: String)
    ensures
        r@ == col_label(column.keyspace_name@, column.table_name@, column.column_name@),
{
    let mut v = to_chars(column.column_name.as_str());
    let bar = to_chars(" | ");
    append_chars(&mut v, &bar);
    let ksc = to_chars(column.keyspace_name.as_str());
    append_chars(&mut v, &ksc);
    v.push('.');
    let tbc = to_chars(column.table_name.as_str());
    append_chars(&mut v, &tbc);
    assert(v@ =~= column.column_name@ + " | "@ + column.keyspace_name@ + seq!['.']
        + column.table_name@);
    chars_to_string(&v)
}

/// The model of the field entry for one column.
pub open spec fn field_entry_model(
    line: Seq<char>,
    pos: int,
    c: Column,
    scope: Option<Seq<char>>,
) -> EntryModel {
    if field_should_edit(line) {
        EntryModel {
            label: col_label(c.keyspace_name@, c.table_name@, c.column_name@),
            kind: EntryKind::Snippet,
            text: TextModel::Rep(
                start_offset(line, pos) + 1,
                line.len() as int,
                col_edit_text(c.keyspace_name@, c.table_name@, c.column_name@, scope),
            ),
        }
    } else {
        EntryModel {
            label: col_label(c.keyspace_name@, c.table_name@, c.column_name@),
            kind: EntryKind::Field,
            text: TextModel::Ins(c.column_name@),
        }
    }
}

/// The field entries for a column list: one entry per column whose name is
/// not already present on the line.
pub open spec fn field_models(
    line: Seq<char>,
    pos: int,
    cols: Seq<Column>,
    scope: Option<Seq<char>>,
) -> Seq<EntryModel>
    decreases cols.len(),
{
    if cols.len() == 0 {
        Seq::empty()
    } else {
        let r = field_models(line, pos, cols.drop_last(), scope);
        let c = cols.last();
        if contains_seq(lower(line), lower(c.column_name@)) {
            r
        } else {
            r.push(field_entry_model(line, pos, c, scope))
        }
    }
}

/// The always-offered built-in function names.
pub open spec fn native_fn_names() -> Seq<Seq<char>> {
    seq![
        "avg"@,
        "count"@,
        "max"@,
        "min"@,
        "sum"@,
        "token"@,
        "now"@,
        "uuid"@,
        "toDate"@,
        "toTimestamp"@,
        "toUnixTimestamp"@,
        "writetime"@,
        "ttl"@,
    ]
}

/// The models of the built-in function entries.
pub open spec fn native_models() -> Seq<EntryModel> {
    native_fn_names().map_values(
        |n: Seq<char>| EntryModel { label: n, kind: EntryKind::Keyword, text: TextModel::Ins(n) },
    )
}

fn push_plain(r: &mut Vec<CompletionEntry>, s: &str, kind: EntryKind)
    ensures
        models(final(r)@) == models(old(r)@).push(
            EntryModel { label: s@, kind, text: TextModel::Ins(s@) },
        ),
{
    let label = chars_to_string(&to_chars(s));
    let ins = chars_to_string(&to_chars(s));
    let ghost pre = r@;
    r.push(CompletionEntry { label, kind, text: EntryText::Insert(ins) });
    proof {
        assert(models(r@) =~~= models(pre).push(
            EntryModel { label: s@, kind, text: TextModel::Ins(s@) },
        ));
    }
}

/// The entries for the built-in CQL functions, appended to every field
/// completion.
pub fn native_function_entries() -> (r: Vec<CompletionEntry>)
    ensures
        models(r@) == native_models(),
{
    let mut r: Vec<CompletionEntry> = Vec::new();
    assert(models(r@) =~~= Seq::<EntryModel>::empty());
    push_plain(&mut r, "avg", EntryKind::Keyword);
    push_plain(&mut r, "count", EntryKind::Keyword);
    push_plain(&mut r, "max", EntryKind::Keyword);
    push_plain(&mut r, "min", EntryKind::Keyword);
    push_plain(&mut r, "sum", EntryKind::Keyword);
    push_plain(&mut r, "token", EntryKind::Keyword);
    push_plain(&mut r, "now", EntryKind::Keyword);
    push_plain(&mut r, "uuid", EntryKind::Keyword);
    push_plain(&mut r, "toDate", EntryKind::Keyword);
    push_plain(&mut r, "toTimestamp", EntryKind::Keyword);
    push_plain(&mut r, "toUnixTimestamp", EntryKind::Keyword);
    push_plain(&mut r, "writetime", EntryKind::Keyword);
    push_plain(&mut r, "ttl", EntryKind::Keyword);
    proof {
        assert(models(r@) =~~= native_models());
    }
    r
}

/// Builds the field completion entries for the given columns: one per
/// column not already named on the line, rendered as a full-statement
/// rewrite where the statement can be completed, plus the built-in
/// function names.
pub fn field_completion_entries(
    line: &Vec<char>,
    pos: usize,
    cols: &Vec<Column>,
    latest: Option<&String>,
) -> (r: Vec<CompletionEntry>)
    ensures
        ({
            let scope = match latest {
                Some(k) => Some(k@),
                None => None,
            };
            models(r@) == field_models(line@, pos as int, cols@, scope) + native_models()
        }),
{
    let ghost scope: Option<Seq<char>> = match latest {
        Some(k) => Some(k@),
        None => None,
    };
    let should_edit = should_field_be_edit(line);
    let lw = to_lower(line);
    let n = line.len();
    let mut r: Vec<CompletionEntry> = Vec::new();
    let mut i: usize = 0;
    assert(models(r@) =~~= Seq::<EntryModel>::empty());
    assert(cols@.take(0) =~= Seq::<Column>::empty());
    while i < cols.len()
        invariant
            i <= cols@.len(),
            n == line@.len(),
            should_edit == field_should_edit(line@),
            lw@ == lower(line@),
            scope == (match latest {
                Some(k) => Some(k@),
                None => None::<Seq<char>>,
            }),
            models(r@) == field_models(line@, pos as int, cols@.take(i as int), scope),
        decreases cols.len() - i,
    {
        assert(cols@.take(i as int + 1).drop_last() =~= cols@.take(i as int));
        let c = &cols[i];
        let cl = to_chars(c.column_name.as_str());
        let cll = to_lower(&cl);
        if !crate::text::contains_vec(&lw, &cll) {
            let ghost pre = r@;
            if should_edit {
                let label = col_label_exec(c);
                let new_text = column_to_text_edit(c, latest);
                let start = get_start_offset(line, pos) + 1;
                r.push(
                    CompletionEntry {
                        label,
                        kind: EntryKind::Snippet,
                        text: EntryText::Edit(EditRange { start, end: line.len() }, new_text),
                    },
                );
            } else {
                let label = col_label_exec(c);
                let ins = chars_to_string(&cl);
                r.push(
                    CompletionEntry { label, kind: EntryKind::Field, text: EntryText::Insert(ins) },
                );
            }
            proof {
                assert(models(r@) =~~= models(pre).push(
                    field_entry_model(line@, pos as int, cols@[i as int], scope),
                ));
            }
        }
        i = i + 1;
    }
    assert(cols@.take(cols@.len() as int) =~= cols@);
    let mut natives = native_function_entries();
    let ghost pre_r = r@;
    let ghost pre_n = natives@;
    r.append(&mut natives);
    proof {
        assert(models(r@) =~~= models(pre_r) + models(pre_n));
    }
    r
}

/// Index of the last quote character of either kind, or -1 when none.
pub open spec fn rfind_quote(s: Seq<char>) -> int
    decreases s.len(),
{
    if s.len() == 0 {
        -1
    } else if s.last() == '"' || s.last() == '\'' {
        s.len() - 1
    } else {
        rfind_quote(s.drop_last())
    }
}

/// An identifier character: an ASCII letter, digit or underscore.
pub open spec fn is_word_char(c: char) -> bool {
    ||| (48 <= c as u32 && c as u32 <= 57)
    ||| (65 <= c as u32 && c as u32 <= 90)
    ||| (97 <= c as u32 && c as u32 <= 122)
    ||| c == '_'
}

/// First index past the identifier run at the start of `s`, or its length.
pub open spec fn find_nonword(s: Seq<char>) -> int
    decreases s.len(),
{
    if s.len() == 0 {
        0
    } else if !is_word_char(s[0]) {
        0
    } else {
        1 + find_nonword(s.drop_first())
    }
}

pub fn is_word_char_exec(c: char) -> (r: bool)
    ensures
        r == is_word_char(c),
{
    let u = c as u32;
    (48 <= u && u <= 57) || (65 <= u && u <= 90) || (97 <= u && u <= 122) || c == '_'
}

proof fn lemma_find_nonword_is(s: Seq<char>, j: int)
    requires
        0 <= j <= s.len(),
        forall|k: int| 0 <= k < j ==> is_word_char(s[k]),
        j == s.len() || !is_word_char(s[j]),
    ensures
        find_nonword(s) == j,
    decreases j,
{
    if j > 0 {
        lemma_find_nonword_is(s.drop_first(), j - 1);
    }
}

/// The closing quote already stands right after the cursor.
pub open spec fn has_closing_quote(line: Seq<char>, pos: int, qc: char) -> bool {
    let suffix = line.skip(pos);
    suffix.len() > 0 && suffix[0] == qc
}

/// A terminator already stands after the cursor's word (and closing quote,
/// when present).
pub open spec fn has_semicolon_after(line: Seq<char>, pos: int, qc: char) -> bool {
    let suffix = line.skip(pos);
    if has_closing_quote(line, pos, qc) {
        suffix.len() > 1 && suffix[1] == ';'
    } else {
        suffix.len() > 0 && suffix[0] == ';'
    }
}

/// What a quoted-value completion inserts: the name, with the closing quote
/// and (for keyspaces) the terminator appended only where absent.
pub open spec fn quoted_ins(nm: Seq<char>, qc: char, hcq: bool, hsemi: bool, add_semi: bool) -> Seq<
    char,
> {
    if hcq && hsemi {
        nm
    } else if !hcq && hsemi {
        nm.push(qc)
    } else if add_semi {
        nm.push(qc).push(';')
    } else {
        nm.push(qc)
    }
}

/// The model of one quoted-value entry: a replacement of the typed word
/// when the closing quote is already present without a terminator, a plain
/// insertion otherwise.
pub open spec fn quoted_model(line: Seq<char>, pos: int, nm: Seq<char>, add_semi: bool) -> EntryModel {
    let prefix = line.take(pos);
    let qp = rfind_quote(prefix);
    let qc = prefix[qp];
    let hcq = has_closing_quote(line, pos, qc);
    let hsemi = has_semicolon_after(line, pos, qc);
    let ins = quoted_ins(nm, qc, hcq, hsemi, add_semi);
    if hcq && !hsemi {
        EntryModel {
            label: nm,
            kind: EntryKind::Value,
            text: TextModel::Rep(qp + 1, pos + find_nonword(line.skip(pos)) + 1, ins),
        }
    } else {
        EntryModel { label: nm, kind: EntryKind::Value, text: TextModel::Ins(ins) }
    }
}

/// The quoted-value entries: one per name beginning with what is already
/// typed inside the quotes.
pub open spec fn quoted_models(
    line: Seq<char>,
    pos: int,
    names: Seq<Seq<char>>,
    add_semi: bool,
) -> Seq<EntryModel>
    decreases names.len(),
{
    if names.len() == 0 {
        Seq::empty()
    } else {
        let r = quoted_models(line, pos, names.drop_last(), add_semi);
        let nm = names.last();
        if starts_with(nm, line.take(pos).skip(rfind_quote(line.take(pos)) + 1)) {
            r.push(quoted_model(line, pos, nm, add_semi))
        } else {
            r
        }
    }
}

fn rfind_quote_exec(v: &Vec<char>) -> (r: Option<usize>)
    ensures
        match r {
            Some(i) => rfind_quote(v@) == i as int && i < v@.len() && (v@[i as int] == '"'
                || v@[i as int] == '\''),
            None => rfind_quote(v@) == -1,
        },
{
    let mut i: usize = v.len();
    assert(v@.take(v@.len() as int) =~= v@);
    while i > 0
        invariant
            i <= v@.len(),
            rfind_quote(v@) == rfind_quote(v@.take(i as int)),
        decreases i,
    {
        assert(v@.take(i as int).drop_last() =~= v@.take(i as int - 1));
        assert(v@.take(i as int).last() == v@[i as int - 1]);
        if v[i - 1] == '"' || v[i - 1] == '\'' {
            return Some(i - 1);
        }
        i = i - 1;
    }
    assert(v@.take(0) =~= Seq::<char>::empty());
    None
}

/// Builds the completions offered inside a quoted value: each candidate
/// name that extends the typed prefix, inserted with quote and terminator
/// completed as far as they are missing.
pub fn quoted_value_entries(
    line: &Vec<char>,
    pos: usize,
    names: &Vec<String>,
    add_semi: bool,
) -> (r: Vec<CompletionEntry>)
    ensures
        ({
            if pos <= line@.len() && rfind_quote(line@.take(pos as int)) >= 0 {
                models(r@) == quoted_models(line@, pos as int, names.deep_view(), add_semi)
            } else {
                r@.len() == 0
            }
        }),
{
    if pos > line.len() {
        return Vec::new();
    }
    let n = line.len();
    let prefix = subvec(line, 0, pos);
    let qp = match rfind_quote_exec(&prefix) {
        Some(i) => i,
        None => {
            return Vec::new();
        },
    };
    let qc = prefix[qp];
    let typed = subvec(&prefix, qp + 1, prefix.len());
    // the run of identifier characters after the cursor
    let mut we: usize = 0;
    while pos + we < line.len() && is_word_char_exec(line[pos + we])
        invariant
            n == line@.len(),
            pos + we <= line@.len(),
            forall|k: int| 0 <= k < we ==> is_word_char(line@.skip(pos as int)[k]),
        decreases line@.len() - pos - we,
    {
        assert(line@.skip(pos as int)[we as int] == line@[pos + we]);
        we = we + 1;
    }
    proof {
        if pos + we < line@.len() {
            assert(line@.skip(pos as int)[we as int] == line@[pos + we]);
        }
        lemma_find_nonword_is(line@.skip(pos as int), we as int);
    }
    let hcq = pos < line.len() && line[pos] == qc;
    let hsemi = if hcq {
        pos + 1 < line.len() && line[pos + 1] == ';'
    } else {
        pos < line.len() && line[pos] == ';'
    };
    proof {
        assert(line@.skip(pos as int).len() == line@.len() - pos);
        if pos < line@.len() {
            assert(line@.skip(pos as int)[0] == line@[pos as int]);
        }
        if pos + 1 < line@.len() {
            assert(line@.skip(pos as int)[1] == line@[pos as int + 1]);
        }
        assert(hcq == has_closing_quote(line@, pos as int, qc));
        assert(hsemi == has_semicolon_after(line@, pos as int, qc));
    }
    let mut r: Vec<CompletionEntry> = Vec::new();
    let mut i: usize = 0;
    assert(models(r@) =~~= Seq::<EntryModel>::empty());
    assert(names.deep_view().take(0) =~= Seq::<Seq<char>>::empty());
    while i < names.len()
        invariant
            i <= names@.len(),
            n == line@.len(),
            pos <= line@.len(),
            prefix@ == line@.take(pos as int),
            qp == rfind_quote(line@.take(pos as int)),
            0 <= qp < pos || (qp < pos && pos == 0),
            qp < line@.len(),
            qc == line@.take(pos as int)[qp as int],
            qc == '"' || qc == '\'',
            typed@ == line@.take(pos as int).skip(qp + 1),
            we == find_nonword(line@.skip(pos as int)),
            pos + we <= line@.len(),
            hcq == has_closing_quote(line@, pos as int, qc),
            hsemi == has_semicolon_after(line@, pos as int, qc),
            models(r@) == quoted_models(
                line@,
                pos as int,
                names.deep_view().take(i as int),
                add_semi,
            ),
        decreases names.len() - i,
    {
        proof {
            assert(names.deep_view().take(i as int + 1).drop_last() =~= names.deep_view().take(
                i as int,
            ));
            assert(names.deep_view()[i as int] == names@[i as int]@);
        }
        let nm = to_chars(names[i].as_str());
        if crate::text::starts_with_vec(&nm, &typed) {
            let mut ins = subvec(&nm, 0, nm.len());
            assert(ins@ =~= nm@);
            if hcq && hsemi {
            } else if !hcq && hsemi {
                ins.push(qc);
            } else if add_semi {
                ins.push(qc);
                ins.push(';');
            } else {
                ins.push(qc);
            }
            assert(ins@ == quoted_ins(nm@, qc, hcq, hsemi, add_semi));
            let label = chars_to_string(&nm);
            let ghost pre = r@;
            if hcq && !hsemi {
                proof {
                    assert(line@.skip(pos as int)[0] == qc);
                    assert(!is_word_char(qc));
                    assert(find_nonword(line@.skip(pos as int)) == 0);
                    assert(we == 0);
                }
                let e = CompletionEntry {
                    label,
                    kind: EntryKind::Value,
                    text: EntryText::Edit(
                        EditRange { start: qp + 1, end: pos + we + 1 },
                        chars_to_string(&ins),
                    ),
                };
                r.push(e);
            } else {
                let e = CompletionEntry {
                    label,
                    kind: EntryKind::Value,
                    text: EntryText::Insert(chars_to_string(&ins)),
                };
                r.push(e);
            }
            proof {
                assert(models(r@) =~~= models(pre).push(
                    quoted_model(line@, pos as int, nm@, add_semi),
                ));
            }
        }
        i = i + 1;
    }
    assert(names.deep_view().take(names@.len() as int) =~= names.deep_view());
    r
}

/// The model of one plain keyspace entry: the word before the cursor
/// replaced, to the end of the line, with the quoted name and terminator.
pub open spec fn ks_plain_model(line: Seq<char>, pos: int, nm: Seq<char>) -> EntryModel {
    EntryModel {
        label: nm,
        kind: EntryKind::Value,
        text: TextModel::Rep(
            edit_anchor(line, pos),
            line.len() as int,
            seq!['"'] + nm + seq!['"', ';'],
        ),
    }
}

pub open spec fn ks_plain_models(line: Seq<char>, pos: int, names: Seq<Seq<char>>) -> Seq<
    EntryModel,
>
    decreases names.len(),
{
    if names.len() == 0 {
        Seq::empty()
    } else {
        ks_plain_models(line, pos, names.drop_last()).push(ks_plain_model(line, pos, names.last()))
    }
}

/// Builds the keyspace completions offered outside a string literal: each
/// name as a quoted, terminated replacement of the word before the cursor.
pub fn keyspace_plain_entries(line: &Vec<char>, pos: usize, names: &Vec<String>) -> (r: Vec<
    CompletionEntry,
>)
    requires
        pos <= line@.len(),
    ensures
        models(r@) == ks_plain_models(line@, pos as int, names.deep_view()),
{
    let anchor = edit_anchor_exec(line, pos);
    let n = line.len();
    let mut r: Vec<CompletionEntry> = Vec::new();
    let mut i: usize = 0;
    assert(models(r@) =~~= Seq::<EntryModel>::empty());
    assert(names.deep_view().take(0) =~= Seq::<Seq<char>>::empty());
    while i < names.len()
        invariant
            i <= names@.len(),
            n == line@.len(),
            anchor == edit_anchor(line@, pos as int),
            anchor <= line@.len(),
            models(r@) == ks_plain_models(line@, pos as int, names.deep_view().take(i as int)),
        decreases names.len() - i,
    {
        proof {
            assert(names.deep_view().take(i as int + 1).drop_last() =~= names.deep_view().take(
                i as int,
            ));
            assert(names.deep_view()[i as int] == names@[i as int]@);
        }
        let nm = to_chars(names[i].as_str());
        let mut txt: Vec<char> = Vec::new();
        txt.push('"');
        append_chars(&mut txt, &nm);
        txt.push('"');
        txt.push(';');
        assert(txt@ =~= seq!['"'] + nm@ + seq!['"', ';']);
        let ghost pre = r@;
        r.push(
            CompletionEntry {
                label: chars_to_string(&nm),
                kind: EntryKind::Value,
                text: EntryText::Edit(EditRange { start: anchor, end: n }, chars_to_string(&txt)),
            },
        );
        proof {
            assert(models(r@) =~~= models(pre).push(
                ks_plain_model(line@, pos as int, names.deep_view()[i as int]),
            ));
        }
        i = i + 1;
    }
    assert(names.deep_view().take(names@.len() as int) =~= names.deep_view());
    r
}

/// The model of one drop-object entry: the word before the cursor replaced,
/// to the end of the line, with the object's name and a terminator.
pub open spec fn drop_model(line: Seq<char>, pos: int, label: Seq<char>) -> EntryModel {
    EntryModel {
        label: label,
        kind: EntryKind::Value,
        text: TextModel::Rep(edit_anchor(line, pos), line.len() as int, label + seq![';']),
    }
}

pub open spec fn drop_ks_models(line: Seq<char>, pos: int, names: Seq<Seq<char>>) -> Seq<EntryModel>
    decreases names.len(),
{
    if names.len() == 0 {
        Seq::empty()
    } else {
        drop_ks_models(line, pos, names.drop_last()).push(drop_model(line, pos, names.last()))
    }
}

/// Builds the completions for DROP KEYSPACE: each keyspace name as a
/// terminated replacement of the word before the cursor.
pub fn drop_keyspace_entries(line: &Vec<char>, pos: usize, names: &Vec<String>) -> (r: Vec<
    CompletionEntry,
>)
    requires
        pos <= line@.len(),
    ensures
        models(r@) == drop_ks_models(line@, pos as int, names.deep_view()),
{
    let anchor = edit_anchor_exec(line, pos);
    let n = line.len();
    let mut r: Vec<CompletionEntry> = Vec::new();
    let mut i: usize = 0;
    assert(models(r@) =~~= Seq::<EntryModel>::empty());
    assert(names.deep_view().take(0) =~= Seq::<Seq<char>>::empty());
    while i < names.len()
        invariant
            i <= names@.len(),
            n == line@.len(),
            anchor == edit_anchor(line@, pos as int),
            anchor <= line@.len(),
            models(r@) == drop_ks_models(line@, pos as int, names.deep_view().take(i as int)),
        decreases names.len() - i,
    {
        proof {
            assert(names.deep_view().take(i as int + 1).drop_last() =~= names.deep_view().take(
                i as int,
            ));
            assert(names.deep_view()[i as int] == names@[i as int]@);
        }
        let nm = to_chars(names[i].as_str());
        let mut txt = subvec(&nm, 0, nm.len());
        assert(txt@ =~= nm@);
        txt.push(';');
        assert(txt@ =~= nm@ + seq![';']);
        let ghost pre = r@;
        r.push(
            CompletionEntry {
                label: chars_to_string(&nm),
                kind: EntryKind::Value,
                text: EntryText::Edit(EditRange { start: anchor, end: n }, chars_to_string(&txt)),
            },
        );
        proof {
            assert(models(r@) =~~= models(pre).push(
                drop_model(line@, pos as int, names.deep_view()[i as int]),
            ));
        }
        i = i + 1;
    }
    assert(names.deep_view().take(names@.len() as int) =~= names.deep_view());
    r
}

/// The qualified names of a list of schema objects.
pub open spec fn qualified_names(objs: Seq<(Seq<char>, Seq<char>)>) -> Seq<Seq<char>> {
    objs.map_values(|o: (Seq<char>, Seq<char>)| o.0 + seq!['.'] + o.1)
}

pub open spec fn drop_obj_models(line: Seq<char>, pos: int, objs: Seq<(Seq<char>, Seq<char>)>) -> Seq<
    EntryModel,
>
    decreases objs.len(),
{
    if objs.len() == 0 {
        Seq::empty()
    } else {
        drop_obj_models(line, pos, objs.drop_last()).push(
            drop_model(line, pos, objs.last().0 + seq!['.'] + objs.last().1),
        )
    }
}

/// Builds the completions for DROP of a qualified object kind: each
/// `keyspace.name` pair as a terminated replacement of the word before the
/// cursor.
pub fn drop_object_entries(line: &Vec<char>, pos: usize, objs: &Vec<(String, String)>) -> (r: Vec<
    CompletionEntry,
>)
    requires
        pos <= line@.len(),
    ensures
        models(r@) == drop_obj_models(line@, pos as int, objs.deep_view()),
{
    let anchor = edit_anchor_exec(line, pos);
    let n = line.len();
    let mut r: Vec<CompletionEntry> = Vec::new();
    let mut i: usize = 0;
    assert(models(r@) =~~= Seq::<EntryModel>::empty());
    assert(objs.deep_view().take(0) =~= Seq::<(Seq<char>, Seq<char>)>::empty());
    while i < objs.len()
        invariant
            i <= objs@.len(),
            n == line@.len(),
            anchor == edit_anchor(line@, pos as int),
            anchor <= line@.len(),
            models(r@) == drop_obj_models(line@, pos as int, objs.deep_view().take(i as int)),
        decreases objs.len() - i,
    {
        proof {
            assert(objs.deep_view().take(i as int + 1).drop_last() =~= objs.deep_view().take(
                i as int,
            ));
            assert(objs.deep_view()[i as int] == (objs@[i as int].0@, objs@[i as int].1@));
        }
        let ks = to_chars(objs[i].0.as_str());
        let mut nm = subvec(&ks, 0, ks.len());
        assert(nm@ =~= ks@);
        nm.push('.');
        let tb = to_chars(objs[i].1.as_str());
        append_chars(&mut nm, &tb);
        assert(nm@ =~= ks@ + seq!['.'] + tb@);
        let mut txt = subvec(&nm, 0, nm.len());
        assert(txt@ =~= nm@);
        txt.push(';');
        assert(txt@ =~= nm@ + seq![';']);
        let ghost pre = r@;
        r.push(
            CompletionEntry {
                label: chars_to_string(&nm),
                kind: EntryKind::Value,
                text: EntryText::Edit(EditRange { start: anchor, end: n }, chars_to_string(&txt)),
            },
        );
        proof {
            assert(models(r@) =~~= models(pre).push(
                drop_model(
                    line@,
                    pos as int,
                    objs.deep_view()[i as int].0 + seq!['.'] + objs.deep_view()[i as int].1,
                ),
            ));
        }
        i = i + 1;
    }
    assert(objs.deep_view().take(objs@.len() as int) =~= objs.deep_view());
    r
}

/// The model of a table entry scoped to the active keyspace: offered
/// unqualified.
pub open spec fn scoped_table_model(t: Table) -> EntryModel {
    EntryModel {
        label: t.table_name@,
        kind: EntryKind::Keyword,
        text: TextModel::Ins(t.table_name@),
    }
}

/// The model of a table entry offered with its full qualified name.
pub open spec fn global_table_model(t: Table) -> EntryModel {
    EntryModel {
        label: t.keyspace_name@ + seq!['.'] + t.table_name@,
        kind: EntryKind::Variable,
        text: TextModel::Ins(t.keyspace_name@ + seq!['.'] + t.table_name@),
    }
}

/// Builds the table completions: the tables of the active keyspace first,
/// unqualified, then every table qualified.  Without an active keyspace the
/// caller passes an empty scoped list.
pub fn table_completion_entries(scoped: &Vec<Table>, global: &Vec<Table>) -> (r: Vec<
    CompletionEntry,
>)
    ensures
        models(r@) == scoped@.map_values(|t: Table| scoped_table_model(t)) + global@.map_values(
            |t: Table| global_table_model(t),
        ),
{
    let mut r: Vec<CompletionEntry> = Vec::new();
    let mut i: usize = 0;
    assert(models(r@) =~~= Seq::<EntryModel>::empty());
    while i < scoped.len()
        invariant
            i <= scoped@.len(),
            models(r@) == scoped@.take(i as int).map_values(|t: Table| scoped_table_model(t)),
        decreases scoped.len() - i,
    {
        let label = chars_to_string(&to_chars(scoped[i].table_name.as_str()));
        let ins = chars_to_string(&to_chars(scoped[i].table_name.as_str()));
        let ghost pre = r@;
        r.push(CompletionEntry { label, kind: EntryKind::Keyword, text: EntryText::Insert(ins) });
        proof {
            assert(models(r@) =~~= models(pre).push(scoped_table_model(scoped@[i as int])));
            assert(scoped@.take(i as int + 1).map_values(|t: Table| scoped_table_model(t)) =~~= scoped@.take(
                i as int,
            ).map_values(|t: Table| scoped_table_model(t)).push(
                scoped_table_model(scoped@[i as int]),
            ));
        }
        i = i + 1;
    }
    assert(scoped@.take(scoped@.len() as int) =~= scoped@);
    let ghost mid = models(r@);
    let mut j: usize = 0;
    while j < global.len()
        invariant
            j <= global@.len(),
            mid == scoped@.map_values(|t: Table| scoped_table_model(t)),
            models(r@) == mid + global@.take(j as int).map_values(|t: Table| global_table_model(t)),
        decreases global.len() - j,
    {
        let united = global[j].united();
        let united2 = global[j].united();
        let ghost pre = r@;
        r.push(
            CompletionEntry {
                label: united,
                kind: EntryKind::Variable,
                text: EntryText::Insert(united2),
            },
        );
        proof {
            assert(models(r@) =~~= models(pre).push(global_table_model(global@[j as int])));
            assert(global@.take(j as int + 1).map_values(|t: Table| global_table_model(t)) =~~= global@.take(
                j as int,
            ).map_values(|t: Table| global_table_model(t)).push(
                global_table_model(global@[j as int]),
            ));
            assert(mid + global@.take(j as int + 1).map_values(|t: Table| global_table_model(t))
                =~~= (mid + global@.take(j as int).map_values(|t: Table| global_table_model(t))).push(
                global_table_model(global@[j as int]),
            ));
        }
        j = j + 1;
    }
    assert(global@.take(global@.len() as int) =~= global@);
    r
}

/// The two graph engine types.
pub fn get_graph_engine_types() -> (r: Vec<String>)
    ensures
        r.deep_view() =~= seq!["Core"@, "Classic"@],
{
    let mut r: Vec<String> = Vec::new();
    r.push(chars_to_string(&to_chars("Core")));
    r.push(chars_to_string(&to_chars("Classic")));
    proof {
        assert(r.deep_view() =~~= seq!["Core"@, "Classic"@]);
    }
    r
}

/// The model of one graph-engine entry offered outside a string: the name
/// inserted in single quotes.
pub open spec fn graph_plain_model(nm: Seq<char>) -> EntryModel {
    EntryModel {
        label: nm,
        kind: EntryKind::Value,
        text: TextModel::Ins(seq!['\''] + nm + seq!['\'']),
    }
}

/// Builds the graph-engine completions offered outside a string literal.
pub fn graph_engine_plain_entries() -> (r: Vec<CompletionEntry>)
    ensures
        models(r@) == seq![graph_plain_model("Core"@), graph_plain_model("Classic"@)],
{
    let mut r: Vec<CompletionEntry> = Vec::new();
    let core = to_chars("Core");
    let mut t1: Vec<char> = Vec::new();
    t1.push('\'');
    append_chars(&mut t1, &core);
    t1.push('\'');
    assert(t1@ =~= seq!['\''] + "Core"@ + seq!['\'']);
    r.push(
        CompletionEntry {
            label: chars_to_string(&core),
            kind: EntryKind::Value,
            text: EntryText::Insert(chars_to_string(&t1)),
        },
    );
    let classic = to_chars("Classic");
    let mut t2: Vec<char> = Vec::new();
    t2.push('\'');
    append_chars(&mut t2, &classic);
    t2.push('\'');
    assert(t2@ =~= seq!['\''] + "Classic"@ + seq!['\'']);
    r.push(
        CompletionEntry {
            label: chars_to_string(&classic),
            kind: EntryKind::Value,
            text: EntryText::Insert(chars_to_string(&t2)),
        },
    );
    proof {
        assert(models(r@) =~~= seq![graph_plain_model("Core"@), graph_plain_model("Classic"@)]);
    }
    r
}

/// The model of a snippet entry: the word as label, the word with a cursor
/// stop appended as insertion.
pub open spec fn snippet_model(w: Seq<char>) -> EntryModel {
    EntryModel { label: w, kind: EntryKind::Keyword, text: TextModel::Ins(w + " $0"@) }
}

fn push_snippet(r: &mut Vec<CompletionEntry>, s: &str)
    ensures
        models(final(r)@) == models(old(r)@).push(snippet_model(s@)),
{
    let mut ins = to_chars(s);
    let stop = to_chars(" $0");
    append_chars(&mut ins, &stop);
    assert(ins@ =~= s@ + " $0"@);
    let ghost pre = r@;
    r.push(
        CompletionEntry {
            label: chars_to_string(&to_chars(s)),
            kind: EntryKind::Keyword,
            text: EntryText::Insert(chars_to_string(&ins)),
        },
    );
    proof {
        assert(models(r@) =~~= models(pre).push(snippet_model(s@)));
    }
}

/// The model of a plain entry: the word inserted as it stands.
pub open spec fn plain_model(w: Seq<char>, kind: EntryKind) -> EntryModel {
    EntryModel { label: w, kind, text: TextModel::Ins(w) }
}

/// The static table of general statement keywords.
pub open spec fn keyword_models() -> Seq<EntryModel> {
    seq![
        snippet_model("SELECT"@),
        snippet_model("select"@),
        snippet_model("INSERT INTO"@),
        snippet_model("insert into"@),
        snippet_model("UPDATE"@),
        snippet_model("update"@),
        snippet_model("DELETE"@),
        snippet_model("delete"@),
        snippet_model("CREATE"@),
        snippet_model("create"@),
        snippet_model("ALTER"@),
        snippet_model("alter"@),
        snippet_model("DROP"@),
        snippet_model("drop"@),
        snippet_model("USE"@),
        snippet_model("use"@),
        snippet_model("TRUNCATE"@),
        snippet_model("truncate"@),
        snippet_model("GRANT"@),
        snippet_model("grant"@),
        snippet_model("REVOKE"@),
        snippet_model("revoke"@),
        snippet_model("LIST"@),
        snippet_model("list"@),
        snippet_model("BEGIN BATCH"@),
        snippet_model("begin batch"@),
        snippet_model("APPLY BATCH"@),
        snippet_model("apply batch"@),
        snippet_model("WHERE"@),
        snippet_model("where"@),
        snippet_model("AND"@),
        snippet_model("and"@),
        snippet_model("FROM"@),
        snippet_model("from"@),
        snippet_model("ORDER BY"@),
        snippet_model("order by"@),
        snippet_model("LIMIT"@),
        snippet_model("limit"@),
        snippet_model("ALLOW FILTERING"@),
        snippet_model("allow filtering"@),
    ]
}

/// The general keyword completions.
#[verifier::rlimit(50)]
pub fn handle_keywords_completion() -> (r: Vec<CompletionEntry>)
    ensures
        models(r@) == keyword_models(),
{
    let mut r: Vec<CompletionEntry> = Vec::new();
    assert(models(r@) =~~= Seq::<EntryModel>::empty());
    push_snippet(&mut r, "SELECT");
    push_snippet(&mut r, "select");
    push_snippet(&mut r, "INSERT INTO");
    push_snippet(&mut r, "insert into");
    push_snippet(&mut r, "UPDATE");
    push_snippet(&mut r, "update");
    push_snippet(&mut r, "DELETE");
    push_snippet(&mut r, "delete");
    push_snippet(&mut r, "CREATE");
    push_snippet(&mut r, "create");
    push_snippet(&mut r, "ALTER");
    push_snippet(&mut r, "alter");
    push_snippet(&mut r, "DROP");
    push_snippet(&mut r, "drop");
    push_snippet(&mut r, "USE");
    push_snippet(&mut r, "use");
    push_snippet(&mut r, "TRUNCATE");
    push_snippet(&mut r, "truncate");
    push_snippet(&mut r, "GRANT");
    push_snippet(&mut r, "grant");
    push_snippet(&mut r, "REVOKE");
    push_snippet(&mut r, "revoke");
    push_snippet(&mut r, "LIST");
    push_snippet(&mut r, "list");
    push_snippet(&mut r, "BEGIN BATCH");
    push_snippet(&mut r, "begin batch");
    push_snippet(&mut r, "APPLY BATCH");
    push_snippet(&mut r, "apply batch");
    push_snippet(&mut r, "WHERE");
    push_snippet(&mut r, "where");
    push_snippet(&mut r, "AND");
    push_snippet(&mut r, "and");
    push_snippet(&mut r, "FROM");
    push_snippet(&mut r, "from");
    push_snippet(&mut r, "ORDER BY");
    push_snippet(&mut r, "order by");
    push_snippet(&mut r, "LIMIT");
    push_snippet(&mut r, "limit");
    push_snippet(&mut r, "ALLOW FILTERING");
    push_snippet(&mut r, "allow filtering");
    proof {
        assert(models(r@) =~~= keyword_models());
    }
    r
}

/// The static table offered after CREATE: each creatable kind, with and
/// without IF NOT EXISTS, in both cases.
pub open spec fn create_kw_models() -> Seq<EntryModel> {
    seq![
        snippet_model("AGGREGATE"@),
        snippet_model("AGGREGATE IF NOT EXISTS"@),
        snippet_model("aggregate"@),
        snippet_model("aggregate if not exists"@),
        snippet_model("FUNCTION"@),
        snippet_model("FUNCTION IF NOT EXISTS"@),
        snippet_model("function"@),
        snippet_model("function if not exists"@),
        snippet_model("INDEX"@),
        snippet_model("INDEX IF NOT EXISTS"@),
        snippet_model("index"@),
        snippet_model("index if not exists"@),
        snippet_model("KEYSPACE"@),
        snippet_model("KEYSPACE IF NOT EXISTS"@),
        snippet_model("keyspace"@),
        snippet_model("keyspace if not exists"@),
        snippet_model("MATERIALIZED VIEW"@),
        snippet_model("MATERIALIZED VIEW IF NOT EXISTS"@),
        snippet_model("materialized view"@),
        snippet_model("materialized view if not exists"@),
        snippet_model("ROLE"@),
        snippet_model("ROLE IF NOT EXISTS"@),
        snippet_model("role"@),
        snippet_model("role if not exists"@),
        snippet_model("SEARCH INDEX"@),
        snippet_model("SEARCH INDEX IF NOT EXISTS"@),
        snippet_model("search index"@),
        snippet_model("search index if not exists"@),
        snippet_model("TABLE"@),
        snippet_model("TABLE IF NOT EXISTS"@),
        snippet_model("table"@),
        snippet_model("table if not exists"@),
        snippet_model("TYPE"@),
        snippet_model("TYPE IF NOT EXISTS"@),
        snippet_model("type"@),
        snippet_model("type if not exists"@),
        snippet_model("USER"@),
        snippet_model("USER IF NOT EXISTS"@),
        snippet_model("user"@),
        snippet_model("user if not exists"@),
    ]
}

/// The completions offered right after CREATE.
#[verifier::rlimit(50)]
pub fn handle_create_keywords() -> (r: Vec<CompletionEntry>)
    ensures
        models(r@) == create_kw_models(),
{
    let mut r: Vec<CompletionEntry> = Vec::new();
    assert(models(r@) =~~= Seq::<EntryModel>::empty());
    push_snippet(&mut r, "AGGREGATE");
    push_snippet(&mut r, "AGGREGATE IF NOT EXISTS");
    push_snippet(&mut r, "aggregate");
    push_snippet(&mut r, "aggregate if not exists");
    push_snippet(&mut r, "FUNCTION");
    push_snippet(&mut r, "FUNCTION IF NOT EXISTS");
    push_snippet(&mut r, "function");
    push_snippet(&mut r, "function if not exists");
    push_snippet(&mut r, "INDEX");
    push_snippet(&mut r, "INDEX IF NOT EXISTS");
    push_snippet(&mut r, "index");
    push_snippet(&mut r, "index if not exists");
    push_snippet(&mut r, "KEYSPACE");
    push_snippet(&mut r, "KEYSPACE IF NOT EXISTS");
    push_snippet(&mut r, "keyspace");
    push_snippet(&mut r, "keyspace if not exists");
    push_snippet(&mut r, "MATERIALIZED VIEW");
    push_snippet(&mut r, "MATERIALIZED VIEW IF NOT EXISTS");
    push_snippet(&mut r, "materialized view");
    push_snippet(&mut r, "materialized view if not exists");
    push_snippet(&mut r, "ROLE");
    push_snippet(&mut r, "ROLE IF NOT EXISTS");
    push_snippet(&mut r, "role");
    push_snippet(&mut r, "role if not exists");
    push_snippet(&mut r, "SEARCH INDEX");
    push_snippet(&mut r, "SEARCH INDEX IF NOT EXISTS");
    push_snippet(&mut r, "search index");
    push_snippet(&mut r, "search index if not exists");
    push_snippet(&mut r, "TABLE");
    push_snippet(&mut r, "TABLE IF NOT EXISTS");
    push_snippet(&mut r, "table");
    push_snippet(&mut r, "table if not exists");
    push_snippet(&mut r, "TYPE");
    push_snippet(&mut r, "TYPE IF NOT EXISTS");
    push_snippet(&mut r, "type");
    push_snippet(&mut r, "type if not exists");
    push_snippet(&mut r, "USER");
    push_snippet(&mut r, "USER IF NOT EXISTS");
    push_snippet(&mut r, "user");
    push_snippet(&mut r, "user if not exists");
    proof {
        assert(models(r@) =~~= create_kw_models());
    }
    r
}

/// The static table offered after ALTER: each alterable kind, with and
/// without WITH, in both cases.
pub open spec fn alter_kw_models() -> Seq<EntryModel> {
    seq![
        snippet_model("KEYSPACE"@),
        snippet_model("KEYSPACE WITH"@),
        snippet_model("keyspace"@),
        snippet_model("keyspace with"@),
        snippet_model("MATERIALIZED VIEW"@),
        snippet_model("MATERIALIZED VIEW WITH"@),
        snippet_model("materialized view"@),
        snippet_model("materialized view with"@),
        snippet_model("ROLE"@),
        snippet_model("ROLE WITH"@),
        snippet_model("role"@),
        snippet_model("role with"@),
        snippet_model("TABLE"@),
        snippet_model("TABLE WITH"@),
        snippet_model("table"@),
        snippet_model("table with"@),
        snippet_model("TYPE"@),
        snippet_model("TYPE WITH"@),
        snippet_model("type"@),
        snippet_model("type with"@),
        snippet_model("USER"@),
        snippet_model("USER WITH"@),
        snippet_model("user"@),
        snippet_model("user with"@),
    ]
}

/// The completions offered right after ALTER.
#[verifier::rlimit(50)]
pub fn handle_alter_keywords() -> (r: Vec<CompletionEntry>)
    ensures
        models(r@) == alter_kw_models(),
{
    let mut r: Vec<CompletionEntry> = Vec::new();
    assert(models(r@) =~~= Seq::<EntryModel>::empty());
    push_snippet(&mut r, "KEYSPACE");
    push_snippet(&mut r, "KEYSPACE WITH");
    push_snippet(&mut r, "keyspace");
    push_snippet(&mut r, "keyspace with");
    push_snippet(&mut r, "MATERIALIZED VIEW");
    push_snippet(&mut r, "MATERIALIZED VIEW WITH");
    push_snippet(&mut r, "materialized view");
    push_snippet(&mut r, "materialized view with");
    push_snippet(&mut r, "ROLE");
    push_snippet(&mut r, "ROLE WITH");
    push_snippet(&mut r, "role");
    push_snippet(&mut r, "role with");
    push_snippet(&mut r, "TABLE");
    push_snippet(&mut r, "TABLE WITH");
    push_snippet(&mut r, "table");
    push_snippet(&mut r, "table with");
    push_snippet(&mut r, "TYPE");
    push_snippet(&mut r, "TYPE WITH");
    push_snippet(&mut r, "type");
    push_snippet(&mut r, "type with");
    push_snippet(&mut r, "USER");
    push_snippet(&mut r, "USER WITH");
    push_snippet(&mut r, "user");
    push_snippet(&mut r, "user with");
    proof {
        assert(models(r@) =~~= alter_kw_models());
    }
    r
}

/// The static table offered after DROP: each droppable kind, in both cases.
pub open spec fn drop_kw_models() -> Seq<EntryModel> {
    seq![
        snippet_model("AGGREGATE"@),
        snippet_model("aggregate"@),
        snippet_model("FUNCTION"@),
        snippet_model("function"@),
        snippet_model("INDEX"@),
        snippet_model("index"@),
        snippet_model("KEYSPACE"@),
        snippet_model("keyspace"@),
        snippet_model("MATERIALIZED VIEW"@),
        snippet_model("materialized view"@),
        snippet_model("ROLE"@),
        snippet_model("role"@),
        snippet_model("SEARCH INDEX"@),
        snippet_model("search index"@),
        snippet_model("TABLE"@),
        snippet_model("table"@),
        snippet_model("TYPE"@),
        snippet_model("type"@),
        snippet_model("USER"@),
        snippet_model("user"@),
    ]
}

/// The completions offered right after DROP.
#[verifier::rlimit(50)]
pub fn handle_drop_keywords() -> (r: Vec<CompletionEntry>)
    ensures
        models(r@) == drop_kw_models(),
{
    let mut r: Vec<CompletionEntry> = Vec::new();
    assert(models(r@) =~~= Seq::<EntryModel>::empty());
    push_snippet(&mut r, "AGGREGATE");
    push_snippet(&mut r, "aggregate");
    push_snippet(&mut r, "FUNCTION");
    push_snippet(&mut r, "function");
    push_snippet(&mut r, "INDEX");
    push_snippet(&mut r, "index");
    push_snippet(&mut r, "KEYSPACE");
    push_snippet(&mut r, "keyspace");
    push_snippet(&mut r, "MATERIALIZED VIEW");
    push_snippet(&mut r, "materialized view");
    push_snippet(&mut r, "ROLE");
    push_snippet(&mut r, "role");
    push_snippet(&mut r, "SEARCH INDEX");
    push_snippet(&mut r, "search index");
    push_snippet(&mut r, "TABLE");
    push_snippet(&mut r, "table");
    push_snippet(&mut r, "TYPE");
    push_snippet(&mut r, "type");
    push_snippet(&mut r, "USER");
    push_snippet(&mut r, "user");
    proof {
        assert(models(r@) =~~= drop_kw_models());
    }
    r
}

/// The static table of column types, in both cases.
pub open spec fn type_models() -> Seq<EntryModel> {
    seq![
        plain_model("ASCII"@, EntryKind::Keyword),
        plain_model("ascii"@, EntryKind::Keyword),
        plain_model("BIGINT"@, EntryKind::Keyword),
        plain_model("bigint"@, EntryKind::Keyword),
        plain_model("BLOB"@, EntryKind::Keyword),
        plain_model("blob"@, EntryKind::Keyword),
        plain_model("BOOLEAN"@, EntryKind::Keyword),
        plain_model("boolean"@, EntryKind::Keyword),
        plain_model("COUNTER"@, EntryKind::Keyword),
        plain_model("counter"@, EntryKind::Keyword),
        plain_model("DATE"@, EntryKind::Keyword),
        plain_model("date"@, EntryKind::Keyword),
        plain_model("DECIMAL"@, EntryKind::Keyword),
        plain_model("decimal"@, EntryKind::Keyword),
        plain_model("DOUBLE"@, EntryKind::Keyword),
        plain_model("double"@, EntryKind::Keyword),
        plain_model("DURATION"@, EntryKind::Keyword),
        plain_model("duration"@, EntryKind::Keyword),
        plain_model("FLOAT"@, EntryKind::Keyword),
        plain_model("float"@, EntryKind::Keyword),
        plain_model("INET"@, EntryKind::Keyword),
        plain_model("inet"@, EntryKind::Keyword),
        plain_model("INT"@, EntryKind::Keyword),
        plain_model("int"@, EntryKind::Keyword),
        plain_model("SMALLINT"@, EntryKind::Keyword),
        plain_model("smallint"@, EntryKind::Keyword),
        plain_model("TEXT"@, EntryKind::Keyword),
        plain_model("text"@, EntryKind::Keyword),
        plain_model("TIME"@, EntryKind::Keyword),
        plain_model("time"@, EntryKind::Keyword),
        plain_model("TIMESTAMP"@, EntryKind::Keyword),
        plain_model("timestamp"@, EntryKind::Keyword),
        plain_model("TIMEUUID"@, EntryKind::Keyword),
        plain_model("timeuuid"@, EntryKind::Keyword),
        plain_model("TINYINT"@, EntryKind::Keyword),
        plain_model("tinyint"@, EntryKind::Keyword),
        plain_model("UUID"@, EntryKind::Keyword),
        plain_model("uuid"@, EntryKind::Keyword),
        plain_model("VARCHAR"@, EntryKind::Keyword),
        plain_model("varchar"@, EntryKind::Keyword),
        plain_model("VARINT"@, EntryKind::Keyword),
        plain_model("varint"@, EntryKind::Keyword),
    ]
}

/// The column-type completions.
#[verifier::rlimit(50)]
pub fn handle_types_completion() -> (r: Vec<CompletionEntry>)
    ensures
        models(r@) == type_models(),
{
    let mut r: Vec<CompletionEntry> = Vec::new();
    assert(models(r@) =~~= Seq::<EntryModel>::empty());
    push_plain(&mut r, "ASCII", EntryKind::Keyword);
    push_plain(&mut r, "ascii", EntryKind::Keyword);
    push_plain(&mut r, "BIGINT", EntryKind::Keyword);
    push_plain(&mut r, "bigint", EntryKind::Keyword);
    push_plain(&mut r, "BLOB", EntryKind::Keyword);
    push_plain(&mut r, "blob", EntryKind::Keyword);
    push_plain(&mut r, "BOOLEAN", EntryKind::Keyword);
    push_plain(&mut r, "boolean", EntryKind::Keyword);
    push_plain(&mut r, "COUNTER", EntryKind::Keyword);
    push_plain(&mut r, "counter", EntryKind::Keyword);
    push_plain(&mut r, "DATE", EntryKind::Keyword);
    push_plain(&mut r, "date", EntryKind::Keyword);
    push_plain(&mut r, "DECIMAL", EntryKind::Keyword);
    push_plain(&mut r, "decimal", EntryKind::Keyword);
    push_plain(&mut r, "DOUBLE", EntryKind::Keyword);
    push_plain(&mut r, "double", EntryKind::Keyword);
    push_plain(&mut r, "DURATION", EntryKind::Keyword);
    push_plain(&mut r, "duration", EntryKind::Keyword);
    push_plain(&mut r, "FLOAT", EntryKind::Keyword);
    push_plain(&mut r, "float", EntryKind::Keyword);
    push_plain(&mut r, "INET", EntryKind::Keyword);
    push_plain(&mut r, "inet", EntryKind::Keyword);
    push_plain(&mut r, "INT", EntryKind::Keyword);
    push_plain(&mut r, "int", EntryKind::Keyword);
    push_plain(&mut r, "SMALLINT", EntryKind::Keyword);
    push_plain(&mut r, "smallint", EntryKind::Keyword);
    push_plain(&mut r, "TEXT", EntryKind::Keyword);
    push_plain(&mut r, "text", EntryKind::Keyword);
    push_plain(&mut r, "TIME", EntryKind::Keyword);
    push_plain(&mut r, "time", EntryKind::Keyword);
    push_plain(&mut r, "TIMESTAMP", EntryKind::Keyword);
    push_plain(&mut r, "timestamp", EntryKind::Keyword);
    push_plain(&mut r, "TIMEUUID", EntryKind::Keyword);
    push_plain(&mut r, "timeuuid", EntryKind::Keyword);
    push_plain(&mut r, "TINYINT", EntryKind::Keyword);
    push_plain(&mut r, "tinyint", EntryKind::Keyword);
    push_plain(&mut r, "UUID", EntryKind::Keyword);
    push_plain(&mut r, "uuid", EntryKind::Keyword);
    push_plain(&mut r, "VARCHAR", EntryKind::Keyword);
    push_plain(&mut r, "varchar", EntryKind::Keyword);
    push_plain(&mut r, "VARINT", EntryKind::Keyword);
    push_plain(&mut r, "varint", EntryKind::Keyword);
    proof {
        assert(models(r@) =~~= type_models());
    }
    r
}

/// The modifier completions once PRIMARY is already typed.
pub open spec fn key_modifier_models() -> Seq<EntryModel> {
    seq![plain_model("KEY"@, EntryKind::Keyword), plain_model("key"@, EntryKind::Keyword)]
}

/// The modifier completions before PRIMARY is typed.
pub open spec fn modifier_models() -> Seq<EntryModel> {
    seq![
        plain_model("PRIMARY KEY"@, EntryKind::Keyword),
        plain_model("primary key"@, EntryKind::Keyword),
        plain_model("STATIC"@, EntryKind::Keyword),
        plain_model("static"@, EntryKind::Keyword),
    ]
}

/// The type-modifier completions: KEY alone when the line already holds
/// PRIMARY, the whole modifiers otherwise.
pub fn handle_type_modifiers_completion(line: &Vec<char>) -> (r: Vec<CompletionEntry>)
    ensures
        models(r@) == (if containsi(line@, "primary"@) {
            key_modifier_models()
        } else {
            modifier_models()
        }),
{
    let mut r: Vec<CompletionEntry> = Vec::new();
    assert(models(r@) =~~= Seq::<EntryModel>::empty());
    if containsi_exec(line, "primary") {
        push_plain(&mut r, "KEY", EntryKind::Keyword);
        push_plain(&mut r, "key", EntryKind::Keyword);
        proof {
            assert(models(r@) =~~= key_modifier_models());
        }
    } else {
        push_plain(&mut r, "PRIMARY KEY", EntryKind::Keyword);
        push_plain(&mut r, "primary key", EntryKind::Keyword);
        push_plain(&mut r, "STATIC", EntryKind::Keyword);
        push_plain(&mut r, "static", EntryKind::Keyword);
        proof {
            assert(models(r@) =~~= modifier_models());
        }
    }
    r
}

/// The FROM-keyword completions.
pub fn handle_from_completion() -> (r: Vec<CompletionEntry>)
    ensures
        models(r@) == seq![snippet_model("FROM"@), snippet_model("from"@)],
{
    let mut r: Vec<CompletionEntry> = Vec::new();
    assert(models(r@) =~~= Seq::<EntryModel>::empty());
    push_snippet(&mut r, "FROM");
    push_snippet(&mut r, "from");
    proof {
        assert(models(r@) =~~= seq![snippet_model("FROM"@), snippet_model("from"@)]);
    }
    r
}

/// The IF NOT EXISTS completions.
pub fn handle_if_not_exists() -> (r: Vec<CompletionEntry>)
    ensures
        models(r@) == seq![snippet_model("IF NOT EXISTS"@), snippet_model("if not exists"@)],
{
    let mut r: Vec<CompletionEntry> = Vec::new();
    assert(models(r@) =~~= Seq::<EntryModel>::empty());
    push_snippet(&mut r, "IF NOT EXISTS");
    push_snippet(&mut r, "if not exists");
    proof {
        assert(models(r@) =~~= seq![
            snippet_model("IF NOT EXISTS"@),
            snippet_model("if not exists"@),
        ]);
    }
    r
}

/// Law: a failing Schema Provider call degrades to an empty row list, and
/// every completion builder still answers on it.  With no rows, the
/// schema-driven entry lists are empty, and the field completion consists
/// of exactly the static built-in function entries.
pub proof fn lemma_empty_schema_completion(
    line: Seq<char>,
    pos: int,
    scope: Option<Seq<char>>,
    add_semi: bool,
)
    ensures
        field_models(line, pos, Seq::<Column>::empty(), scope) + native_models()
            == native_models(),
        drop_obj_models(line, pos, Seq::<(Seq<char>, Seq<char>)>::empty()) == Seq::<
            EntryModel,
        >::empty(),
        drop_ks_models(line, pos, Seq::<Seq<char>>::empty()) == Seq::<EntryModel>::empty(),
        quoted_models(line, pos, Seq::<Seq<char>>::empty(), add_semi) == Seq::<EntryModel>::empty(),
{
    assert(field_models(line, pos, Seq::<Column>::empty(), scope) + native_models()
        =~= native_models());
}

/// Which schema query the field completion needs: a fixed keyspace and
/// table, a whole keyspace, or the global column catalog.
pub enum FieldQuery {
    Hard(String, String),
    Scoped(String),
    Global,
}

/// Decides the field completion's query: a qualified `keyspace.table` token
/// on the line wins; then a bare table under the active keyspace; then the
/// active keyspace alone; else the global catalog.
pub fn field_query_plan(line: &Vec<char>, lines: &Vec<Vec<char>>, cursor_line: usize) -> (r:
    FieldQuery)
    ensures
        ({
            let lv = line@;
            let dv = lines.deep_view();
            let scope = latest_keyspace_spec(dv, cursor_line as int);
            match r {
                FieldQuery::Hard(ks, tb) => {
                    ||| (from_target_qualified(lv) && ks@ == split_char(from_token_cleaned(lv), '.')[0]
                        && tb@ == split_char(from_token_cleaned(lv), '.')[1])
                    ||| (!from_target_qualified(lv) && from_target_bare(lv) && scope == Some(ks@)
                        && tb@ == from_token_cleaned(lv))
                },
                FieldQuery::Scoped(ks) => !from_target_qualified(lv) && !from_target_bare(lv)
                    && scope == Some(ks@),
                FieldQuery::Global => !from_target_qualified(lv) && scope is None,
            }
        }),
{
    match from_target(line) {
        FromTarget::Qualified(ks, tb) => FieldQuery::Hard(ks, tb),
        FromTarget::Bare(tb) => {
            match latest_keyspace(lines, cursor_line) {
                Some(ks) => FieldQuery::Hard(ks, tb),
                None => FieldQuery::Global,
            }
        },
        FromTarget::NoTarget => {
            match latest_keyspace(lines, cursor_line) {
                Some(ks) => FieldQuery::Scoped(ks),
                None => FieldQuery::Global,
            }
        },
    }
}

} // verus!

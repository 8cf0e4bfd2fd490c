//! Read-mostly Git integration: parsing of `git` output, the argument lists
//! of the commands, and the decisions taken on their results. The commands
//! themselves are run by the caller, which hands their output back.
use vstd::prelude::*;

use crate::split::{
    copy_chars, decimal, drop_empty, lines_of, parse_u32, spec_decimal, spec_lines,
    spec_parse_u32, spec_split, split_chars, split_nonempty, lemma_split_nonempty,
};
use crate::text::{
    byte_boundary, byte_boundary_exec, chars_of, contains_str, eq_str, extend_chars, has_char,
    is_ascii_alphanumeric, owned, replace_char, slice_chars, spec_contains,
    spec_has_char, spec_is_ascii_alphanumeric, spec_replace_char, spec_trim, spec_utf8_len,
    string_of, trim_vec, utf8_len_at_least, eq_vec, char_lowercase, lowercase_char,
    path_parent, simple_parent, spec_starts_with, spec_all_ascii, spec_ascii_lower,
    spec_ascii_lower_char, spec_is_ascii_char, last_index_of, simple_last_split,
    lemma_utf8_len_prefix_strict, spec_utf8_width,
};
use crate::plugins::{path_join, plain_base, plain_component, pushed, sep_joined};
use crate::timeline::{
    strings_view, lemma_strings_view,
};

verus! {

broadcast use lemma_strings_view;

#[derive(Debug, Clone, Copy, PartialEq, Eq, Structural)]
pub enum ChangeKind {
    Added,
    Modified,
    Deleted,
    Renamed,
    Untracked,
    Conflicted,
}

/// One changed path of the working copy.
#[derive(Debug)]
pub struct FileChange {
    pub path: String,
    pub old_path: Option<String>,
    pub kind: ChangeKind,
    pub staged: bool,
}

#[derive(Debug)]
pub struct Worktree {
    pub path: String,
    pub branch: String,
}

#[derive(Debug)]
pub struct CommitFileChange {
    pub path: String,
    pub old_path: Option<String>,
    pub status: char,
    pub additions: u32,
    pub deletions: u32,
}

#[derive(Debug)]
pub struct CommitDetail {
    pub hash: String,
    pub author: String,
    pub date: String,
    pub subject: String,
    pub body: String,
    pub files: Vec<CommitFileChange>,
    pub summary: String,
}

/// What a finished `git` command produced (text decoded leniently).
#[derive(Debug)]
pub struct GitOutput {
    pub success: bool,
    pub stdout: String,
    pub stderr: String,
}

pub struct GitOutputView {
    pub success: bool,
    pub stdout: Seq<char>,
    pub stderr: Seq<char>,
}

impl View for GitOutput {
    type V = GitOutputView;

    open spec fn view(&self) -> GitOutputView {
        GitOutputView { success: self.success, stdout: self.stdout@, stderr: self.stderr@ }
    }
}

pub struct GitWorkspaceService;

pub struct FileChangeView {
    pub path: Seq<char>,
    pub old_path: Option<Seq<char>>,
    pub kind: ChangeKind,
    pub staged: bool,
}

impl View for FileChange {
    type V = FileChangeView;

    open spec fn view(&self) -> FileChangeView {
        FileChangeView {
            path: self.path@,
            old_path: match self.old_path {
                Some(p) => Some(p@),
                None => None,
            },
            kind: self.kind,
            staged: self.staged,
        }
    }
}

pub open spec fn changes_view(v: Seq<FileChange>) -> Seq<FileChangeView> {
    Seq::new(v.len(), |i: int| v[i]@)
}

// ───────────────────────── `git status --porcelain=v1 -z` ─────────────────────────

/// Kind of change a two-letter status code stands for.
pub open spec fn spec_classify(code: Seq<char>) -> ChangeKind {
    if code == "??"@ {
        ChangeKind::Untracked
    } else if spec_has_char(code, 'U') || code == "AA"@ || code == "DD"@ {
        ChangeKind::Conflicted
    } else if spec_has_char(code, 'R') {
        ChangeKind::Renamed
    } else if spec_has_char(code, 'A') {
        ChangeKind::Added
    } else if spec_has_char(code, 'D') {
        ChangeKind::Deleted
    } else {
        ChangeKind::Modified
    }
}

/// Status records: the non-empty NUL-separated fields.
pub open spec fn porcelain_fields(text: Seq<char>) -> Seq<Seq<char>> {
    drop_empty(spec_split(text, '\0'))
}

/// Rows parsed from record `i` on. `None` when slicing a record's status
/// code off would cut a character (a panic); `Some(Err)` for a record
/// shorter than four bytes.
pub open spec fn parse_from(fields: Seq<Seq<char>>, i: int) -> Option<Result<Seq<FileChangeView>, ()>>
    decreases fields.len() - i,
{
    if i < 0 || i >= fields.len() {
        Some(Ok(Seq::empty()))
    } else {
        let f = fields[i];
        if spec_utf8_len(f) < 4 {
            Some(Err(()))
        } else {
            match (byte_boundary(f, 2), byte_boundary(f, 3)) {
                (Some(k2), Some(k3)) => {
                    let code = f.subrange(0, k2);
                    let path = f.subrange(k3, f.len() as int);
                    let kind = spec_classify(code);
                    let renamed = kind == ChangeKind::Renamed && i + 1 < fields.len();
                    let row = FileChangeView {
                        path,
                        old_path: if renamed {
                            Some(fields[i + 1])
                        } else {
                            None
                        },
                        kind,
                        staged: code.len() > 0 && code[0] != ' ' && code[0] != '?',
                    };
                    let next = if renamed {
                        i + 2
                    } else {
                        i + 1
                    };
                    match parse_from(fields, next) {
                        Some(Ok(rest)) => Some(Ok(seq![row] + rest)),
                        other => other,
                    }
                },
                _ => None,
            }
        }
    }
}

/// The rows of a porcelain status listing (see `parse_from`).
pub open spec fn spec_parse_porcelain(text: Seq<char>) -> Option<Result<Seq<FileChangeView>, ()>> {
    parse_from(porcelain_fields(text), 0)
}

pub open spec fn prepend(
    rows: Seq<FileChangeView>,
    r: Option<Result<Seq<FileChangeView>, ()>>,
) -> Option<Result<Seq<FileChangeView>, ()>> {
    match r {
        Some(Ok(rest)) => Some(Ok(rows + rest)),
        other => other,
    }
}

/// Kind of change of a status code.
pub fn classify(code: &Vec<char>) -> (r: ChangeKind)
    ensures
        r == spec_classify(code@),
{
    if eq_str(code, "??") {
        ChangeKind::Untracked
    } else if has_char(code, 'U') || eq_str(code, "AA") || eq_str(code, "DD") {
        ChangeKind::Conflicted
    } else if has_char(code, 'R') {
        ChangeKind::Renamed
    } else if has_char(code, 'A') {
        ChangeKind::Added
    } else if has_char(code, 'D') {
        ChangeKind::Deleted
    } else {
        ChangeKind::Modified
    }
}

/// Message of the refusal of a malformed status listing.
pub open spec fn invalid_status_message() -> Seq<char> {
    "无效的 git status 输出"@
}

/// Whether a porcelain listing can be parsed at all: no record that the
/// parser reaches has its status code cut inside a character.
pub fn porcelain_parsable(text: &str) -> (r: bool)
    ensures
        r == spec_parse_porcelain(text@) is Some,
{
    let chars = chars_of(text);
    let fields = split_nonempty(&chars, '\0');
    let ghost fs = porcelain_fields(text@);
    assert(fields@.len() == fs.len());
    let mut i: usize = 0;
    while i < fields.len()
        invariant
            fs == porcelain_fields(text@),
            fields@.len() == fs.len(),
            forall|k: int| 0 <= k < fields@.len() ==> (#[trigger] fields@[k])@ == fs[k],
            i <= fields.len(),
            (parse_from(fs, 0) is Some) == (parse_from(fs, i as int) is Some),
        decreases fields.len() - i,
    {
        let f = &fields[i];
        assert(f@ == fs[i as int]);
        if !utf8_len_at_least(f, 4) {
            return true;
        }
        let k2 = byte_boundary_exec(f, 2);
        let k3 = byte_boundary_exec(f, 3);
        if k2.is_none() || k3.is_none() {
            return false;
        }
        let code = slice_chars(f, 0, k2.unwrap());
        let kind = classify(&code);
        let renamed = kind == ChangeKind::Renamed && i + 1 < fields.len();
        let next = if renamed {
            i + 2
        } else {
            i + 1
        };
        proof {
            match parse_from(fs, next as int) {
                Some(Ok(rest)) => {},
                _ => {},
            }
        }
        i = next;
    }
    true
}

/// Parse `git status --porcelain=v1 -z` output into one row per record
/// (renames take the next record as their old path).
pub fn parse_porcelain_z(text: &str) -> (r: Result<Vec<FileChange>, String>)
    requires
        spec_parse_porcelain(text@) is Some,
    ensures
        match r {
            Ok(rows) => spec_parse_porcelain(text@) == Some(
                Ok::<Seq<FileChangeView>, ()>(changes_view(rows@)),
            ),
            Err(e) => spec_parse_porcelain(text@) == Some(Err::<Seq<FileChangeView>, ()>(()))
                && e@ == invalid_status_message(),
        },
{
    let chars = chars_of(text);
    let fields = split_nonempty(&chars, '\0');
    let ghost fs = porcelain_fields(text@);
    assert(fields@.len() == fs.len());
    let mut result: Vec<FileChange> = Vec::new();
    let mut i: usize = 0;
    assert(changes_view(result@) =~= Seq::<FileChangeView>::empty());
    assert(prepend(Seq::empty(), parse_from(fs, 0)) == parse_from(fs, 0));
    while i < fields.len()
        invariant
            fs == porcelain_fields(text@),
            fields@.len() == fs.len(),
            forall|k: int| 0 <= k < fields@.len() ==> (#[trigger] fields@[k])@ == fs[k],
            i <= fields.len(),
            parse_from(fs, 0) is Some,
            parse_from(fs, 0) == prepend(changes_view(result@), parse_from(fs, i as int)),
        decreases fields.len() - i,
    {
        let f = &fields[i];
        assert(f@ == fs[i as int]);
        if !utf8_len_at_least(f, 4) {
            return Err(owned("无效的 git status 输出"));
        }
        let k2 = byte_boundary_exec(f, 2);
        let k3 = byte_boundary_exec(f, 3);
        if k2.is_none() || k3.is_none() {
            // Excluded by the precondition: the record would be cut inside a character.
            assert(parse_from(fs, i as int) is None);
            assert(false);
            return Err(owned("无效的 git status 输出"));
        }
        let k2 = k2.unwrap();
        let k3 = k3.unwrap();
        let code = slice_chars(f, 0, k2);
        let path = slice_chars(f, k3, f.len());
        let kind = classify(&code);
        let renamed = kind == ChangeKind::Renamed && i + 1 < fields.len();
        let old_path = if renamed {
            Some(string_of(&fields[i + 1]))
        } else {
            None
        };
        let staged = code.len() > 0 && code[0] != ' ' && code[0] != '?';
        let row = FileChange { path: string_of(&path), old_path, kind, staged };
        let ghost before = result@;
        result.push(row);
        let next = if renamed {
            i + 2
        } else {
            i + 1
        };
        proof {
            assert(changes_view(result@) =~= changes_view(before).push(row@));
            assert(changes_view(before).push(row@) =~= changes_view(before) + seq![row@]);
            assert(parse_from(fs, i as int) == prepend(seq![row@], parse_from(fs, next as int)));
            match parse_from(fs, next as int) {
                Some(Ok(rest)) => {
                    assert(changes_view(before) + (seq![row@] + rest) =~= changes_view(result@)
                        + rest);
                },
                _ => {},
            }
        }
        i = next;
    }
    assert(changes_view(result@) + Seq::<FileChangeView>::empty() =~= changes_view(result@));
    Ok(result)
}

} // verus!

verus! {

// ───────────────────────── collapsing rows per path ─────────────────────────

/// Lexicographic order of character sequences (the order of `String`).
pub open spec fn seq_lt(a: Seq<char>, b: Seq<char>) -> bool
    decreases a.len(),
{
    if a.len() == 0 {
        b.len() > 0
    } else if b.len() == 0 {
        false
    } else if a[0] != b[0] {
        a[0] < b[0]
    } else {
        seq_lt(a.drop_first(), b.drop_first())
    }
}

/// `a < b` in lexicographic order.
pub fn lt_vec(a: &Vec<char>, b: &Vec<char>) -> (r: bool)
    ensures
        r == seq_lt(a@, b@),
{
    let mut i: usize = 0;
    assert(a@.subrange(0, a.len() as int) =~= a@);
    assert(b@.subrange(0, b.len() as int) =~= b@);
    while i < a.len() && i < b.len() && a[i] == b[i]
        invariant
            i <= a.len(),
            i <= b.len(),
            seq_lt(a@.subrange(i as int, a.len() as int), b@.subrange(i as int, b.len() as int))
                == seq_lt(a@, b@),
        decreases a.len() - i,
    {
        assert(a@.subrange(i as int, a.len() as int).drop_first() =~= a@.subrange(
            i + 1,
            a.len() as int,
        ));
        assert(b@.subrange(i as int, b.len() as int).drop_first() =~= b@.subrange(
            i + 1,
            b.len() as int,
        ));
        i = i + 1;
    }
    if i == a.len() {
        i < b.len()
    } else if i == b.len() {
        false
    } else {
        a[i] < b[i]
    }
}

pub proof fn lemma_seq_lt_irreflexive(a: Seq<char>)
    ensures
        !seq_lt(a, a),
    decreases a.len(),
{
    if a.len() > 0 {
        lemma_seq_lt_irreflexive(a.drop_first());
    }
}

pub proof fn lemma_seq_lt_trichotomy(a: Seq<char>, b: Seq<char>)
    ensures
        seq_lt(a, b) || seq_lt(b, a) || a == b,
    decreases a.len(),
{
    if a.len() > 0 && b.len() > 0 && a[0] == b[0] {
        lemma_seq_lt_trichotomy(a.drop_first(), b.drop_first());
        if a.drop_first() == b.drop_first() {
            assert(a =~= seq![a[0]] + a.drop_first());
            assert(b =~= seq![b[0]] + b.drop_first());
        }
    } else if a.len() == 0 && b.len() == 0 {
        assert(a =~= b);
    }
}

pub proof fn lemma_seq_lt_asymmetric(a: Seq<char>, b: Seq<char>)
    requires
        seq_lt(a, b),
    ensures
        !seq_lt(b, a),
    decreases a.len(),
{
    if a.len() > 0 && b.len() > 0 && a[0] == b[0] {
        lemma_seq_lt_asymmetric(a.drop_first(), b.drop_first());
    }
}

pub proof fn lemma_seq_lt_transitive(a: Seq<char>, b: Seq<char>, c: Seq<char>)
    requires
        seq_lt(a, b),
        seq_lt(b, c),
    ensures
        seq_lt(a, c),
    decreases a.len(),
{
    if a.len() > 0 && b.len() > 0 && c.len() > 0 && a[0] == b[0] && b[0] == c[0] {
        lemma_seq_lt_transitive(a.drop_first(), b.drop_first(), c.drop_first());
    }
}

/// The key a row is collapsed under: its path with `\` written as `/`.
pub open spec fn row_key(r: FileChangeView) -> Seq<char> {
    spec_replace_char(r.path, '\\', '/')
}

/// Merging a later row into the one kept for its path: a conflict, or a
/// tracked change over an untracked one, takes over the kind (and the old
/// path when it has one); staging accumulates; the kept path stays.
pub open spec fn merge_row(existing: FileChangeView, row: FileChangeView) -> FileChangeView {
    let upgrade = existing.kind != ChangeKind::Conflicted && (row.kind == ChangeKind::Conflicted
        || (existing.kind == ChangeKind::Untracked && row.kind != ChangeKind::Untracked));
    FileChangeView {
        path: existing.path,
        kind: if upgrade {
            row.kind
        } else {
            existing.kind
        },
        old_path: if upgrade && row.old_path is Some {
            row.old_path
        } else {
            existing.old_path
        },
        staged: existing.staged || row.staged,
    }
}

/// Number of leading entries whose key sorts before `k`.
pub open spec fn insert_pos(acc: Seq<FileChangeView>, k: Seq<char>) -> nat
    decreases acc.len(),
{
    if acc.len() == 0 || !seq_lt(row_key(acc[0]), k) {
        0
    } else {
        1 + insert_pos(acc.drop_first(), k)
    }
}

/// A row put into a key-ordered list: merged into the entry with its key,
/// or inserted in order.
pub open spec fn upsert(acc: Seq<FileChangeView>, row: FileChangeView) -> Seq<FileChangeView> {
    let p = insert_pos(acc, row_key(row));
    if p < acc.len() && row_key(acc[p as int]) == row_key(row) {
        acc.update(p as int, merge_row(acc[p as int], row))
    } else {
        acc.insert(p as int, row)
    }
}

/// All rows collapsed to one per path key, in key order.
pub open spec fn spec_merge_working_copy(rows: Seq<FileChangeView>) -> Seq<FileChangeView>
    decreases rows.len(),
{
    if rows.len() == 0 {
        Seq::empty()
    } else {
        upsert(spec_merge_working_copy(rows.drop_last()), rows.last())
    }
}

/// Keys strictly increasing.
pub open spec fn keys_sorted(acc: Seq<FileChangeView>) -> bool {
    forall|i: int, j: int|
        0 <= i < j < acc.len() ==> seq_lt(row_key(#[trigger] acc[i]), row_key(#[trigger] acc[j]))
}

pub proof fn lemma_insert_pos(acc: Seq<FileChangeView>, k: Seq<char>, i: int)
    requires
        0 <= i <= acc.len(),
        forall|j: int| 0 <= j < i ==> seq_lt(row_key(#[trigger] acc[j]), k),
        i == acc.len() || !seq_lt(row_key(acc[i]), k),
    ensures
        insert_pos(acc, k) == i,
    decreases i,
{
    if i > 0 {
        assert forall|j: int| 0 <= j < i - 1 implies seq_lt(row_key(#[trigger] acc.drop_first()[j]), k) by {
            assert(acc.drop_first()[j] == acc[j + 1]);
        }
        lemma_insert_pos(acc.drop_first(), k, i - 1);
    }
}

/// The key of a row.
pub fn key_of(r: &FileChange) -> (k: Vec<char>)
    ensures
        k@ == row_key(r@),
{
    replace_char(&chars_of(r.path.as_str()), '\\', '/')
}

/// A copy of an optional string.
fn copy_opt(s: &Option<String>) -> (r: Option<String>)
    ensures
        r == *s,
{
    match s {
        Some(x) => Some(x.clone()),
        None => None,
    }
}

/// Put one row into the key-ordered list of kept rows.
pub fn upsert_row(acc: &mut Vec<FileChange>, row: FileChange)
    ensures
        changes_view(final(acc)@) == upsert(changes_view(old(acc)@), row@),
{
    let ghost av = changes_view(acc@);
    let k = key_of(&row);
    let mut i: usize = 0;
    while i < acc.len() && lt_vec(&key_of(&acc[i]), &k)
        invariant
            i <= acc.len(),
            av == changes_view(acc@),
            k@ == row_key(row@),
            forall|j: int| 0 <= j < i ==> seq_lt(row_key(#[trigger] av[j]), k@),
        decreases acc.len() - i,
    {
        i = i + 1;
    }
    proof {
        lemma_insert_pos(av, k@, i as int);
    }
    if i < acc.len() && eq_vec_keys(&key_of(&acc[i]), &k) {
        let upgrade = acc[i].kind != ChangeKind::Conflicted && (row.kind == ChangeKind::Conflicted
            || (acc[i].kind == ChangeKind::Untracked && row.kind != ChangeKind::Untracked));
        let merged = FileChange {
            path: acc[i].path.clone(),
            kind: if upgrade {
                row.kind
            } else {
                acc[i].kind
            },
            old_path: if upgrade && row.old_path.is_some() {
                copy_opt(&row.old_path)
            } else {
                copy_opt(&acc[i].old_path)
            },
            staged: acc[i].staged || row.staged,
        };
        let ghost before = acc@;
        acc.set(i, merged);
        assert(changes_view(acc@) =~= changes_view(before).update(i as int, merged@));
    } else {
        let ghost before = acc@;
        acc.insert(i, row);
        assert(changes_view(acc@) =~= changes_view(before).insert(i as int, row@));
    }
}

fn eq_vec_keys(a: &Vec<char>, b: &Vec<char>) -> (r: bool)
    ensures
        r == (a@ == b@),
{
    crate::text::eq_vec(a, b)
}

/// Collapse porcelain rows so each path appears once, ordered by path key.
pub fn merge_working_copy(rows: Vec<FileChange>) -> (r: Vec<FileChange>)
    ensures
        changes_view(r@) == spec_merge_working_copy(changes_view(rows@)),
{
    let ghost rv = changes_view(rows@);
    let mut acc: Vec<FileChange> = Vec::new();
    let mut rest = rows;
    let n = rest.len();
    let mut taken: usize = 0;
    assert(changes_view(acc@) =~= Seq::<FileChangeView>::empty());
    assert(rv.subrange(0, 0) =~= Seq::<FileChangeView>::empty());
    while rest.len() > 0
        invariant
            taken + rest.len() == rv.len(),
            n == rv.len(),
            changes_view(rest@) == rv.subrange(taken as int, rv.len() as int),
            changes_view(acc@) == spec_merge_working_copy(rv.subrange(0, taken as int)),
        decreases rest.len(),
    {
        let ghost before_rest = rest@;
        let row = rest.remove(0);
        assert(row@ == rv[taken as int]) by {
            assert(changes_view(before_rest)[0] == before_rest[0]@);
        }
        upsert_row(&mut acc, row);
        proof {
            assert(rv.subrange(0, taken + 1).drop_last() =~= rv.subrange(0, taken as int));
            assert(rest@ =~= before_rest.remove(0));
            assert forall|j: int| 0 <= j < rest@.len() implies changes_view(rest@)[j] == rv.subrange(
                taken + 1,
                rv.len() as int,
            )[j] by {
                assert(rest@[j] == before_rest[j + 1]);
                assert(changes_view(before_rest)[j + 1] == before_rest[j + 1]@);
            }
            assert(changes_view(rest@) =~= rv.subrange(taken + 1, rv.len() as int));
        }
        taken = taken + 1;
    }
    assert(rv.subrange(0, rv.len() as int) =~= rv);
    acc
}

} // verus!

verus! {

pub proof fn lemma_insert_pos_facts(acc: Seq<FileChangeView>, k: Seq<char>)
    ensures
        insert_pos(acc, k) <= acc.len(),
        forall|j: int| 0 <= j < insert_pos(acc, k) ==> seq_lt(row_key(#[trigger] acc[j]), k),
        insert_pos(acc, k) < acc.len() ==> !seq_lt(row_key(acc[insert_pos(acc, k) as int]), k),
    decreases acc.len(),
{
    if acc.len() > 0 && seq_lt(row_key(acc[0]), k) {
        lemma_insert_pos_facts(acc.drop_first(), k);
        assert forall|j: int| 0 <= j < insert_pos(acc, k) implies seq_lt(row_key(#[trigger] acc[j]), k) by {
            if j > 0 {
                assert(acc.drop_first()[j - 1] == acc[j]);
            }
        }
    }
}

pub proof fn lemma_upsert_sorted(acc: Seq<FileChangeView>, row: FileChangeView)
    requires
        keys_sorted(acc),
    ensures
        keys_sorted(upsert(acc, row)),
        upsert(acc, row).len() <= acc.len() + 1,
        exists|i: int| 0 <= i < upsert(acc, row).len() && row_key(upsert(acc, row)[i]) == row_key(row),
        forall|i: int|
            0 <= i < acc.len() ==> exists|j: int|
                0 <= j < upsert(acc, row).len() && row_key(upsert(acc, row)[j]) == row_key(
                    #[trigger] acc[i],
                ),
{
    let k = row_key(row);
    let p = insert_pos(acc, k) as int;
    lemma_insert_pos_facts(acc, k);
    let s = upsert(acc, row);
    if p < acc.len() && row_key(acc[p]) == k {
        assert(keys_sorted(s)) by {
            assert forall|i: int, j: int| 0 <= i < j < s.len() implies seq_lt(
                row_key(#[trigger] s[i]),
                row_key(#[trigger] s[j]),
            ) by {
                assert(row_key(s[i]) == row_key(acc[i]));
                assert(row_key(s[j]) == row_key(acc[j]));
            }
        }
        assert(row_key(s[p]) == k);
        assert forall|i: int| 0 <= i < acc.len() implies exists|j: int|
            0 <= j < s.len() && row_key(s[j]) == row_key(#[trigger] acc[i]) by {
            assert(row_key(s[i]) == row_key(acc[i]));
        }
    } else {
        if p < acc.len() {
            lemma_seq_lt_trichotomy(row_key(acc[p]), k);
        }
        assert(keys_sorted(s)) by {
            assert forall|i: int, j: int| 0 <= i < j < s.len() implies seq_lt(
                row_key(#[trigger] s[i]),
                row_key(#[trigger] s[j]),
            ) by {
                if j < p {
                } else if j == p {
                    assert(s[j] == row);
                    assert(s[i] == acc[i]);
                } else if i == p {
                    assert(s[i] == row);
                    assert(s[j] == acc[j - 1]);
                    if j - 1 > p {
                        assert(seq_lt(row_key(acc[p]), row_key(acc[j - 1])));
                        lemma_seq_lt_transitive(k, row_key(acc[p]), row_key(acc[j - 1]));
                    }
                } else if i < p {
                    assert(s[i] == acc[i]);
                    assert(s[j] == acc[j - 1]);
                } else {
                    assert(s[i] == acc[i - 1]);
                    assert(s[j] == acc[j - 1]);
                }
            }
        }
        assert(s[p] == row);
        assert forall|i: int| 0 <= i < acc.len() implies exists|j: int|
            0 <= j < s.len() && row_key(s[j]) == row_key(#[trigger] acc[i]) by {
            if i < p {
                assert(s[i] == acc[i]);
            } else {
                assert(s[i + 1] == acc[i]);
            }
        }
    }
}

/// Collapsing the working copy's rows gives each path key once, in strictly
/// increasing key order; every input row's key is listed, and there are
/// never more entries than rows.
pub proof fn law_merge_working_copy_keys(rows: Seq<FileChangeView>)
    ensures
        keys_sorted(spec_merge_working_copy(rows)),
        spec_merge_working_copy(rows).len() <= rows.len(),
        forall|i: int|
            0 <= i < rows.len() ==> exists|j: int|
                0 <= j < spec_merge_working_copy(rows).len() && row_key(
                    spec_merge_working_copy(rows)[j],
                ) == row_key(#[trigger] rows[i]),
    decreases rows.len(),
{
    if rows.len() > 0 {
        let prev = spec_merge_working_copy(rows.drop_last());
        law_merge_working_copy_keys(rows.drop_last());
        lemma_upsert_sorted(prev, rows.last());
        let s = spec_merge_working_copy(rows);
        assert forall|i: int| 0 <= i < rows.len() implies exists|j: int|
            0 <= j < s.len() && row_key(s[j]) == row_key(#[trigger] rows[i]) by {
            if i < rows.len() - 1 {
                assert(rows.drop_last()[i] == rows[i]);
                let j0 = choose|j0: int|
                    0 <= j0 < prev.len() && row_key(prev[j0]) == row_key(rows.drop_last()[i]);
                assert(row_key(prev[j0]) == row_key(rows[i]));
                assert(exists|j: int| 0 <= j < s.len() && row_key(s[j]) == row_key(#[trigger] prev[j0]));
            }
        }
    }
}

/// Some row with key `k` is staged.
pub open spec fn any_staged(rows: Seq<FileChangeView>, k: Seq<char>) -> bool {
    exists|i: int| 0 <= i < rows.len() && row_key(#[trigger] rows[i]) == k && rows[i].staged
}

/// Some row with key `k` is a conflict.
pub open spec fn any_conflicted(rows: Seq<FileChangeView>, k: Seq<char>) -> bool {
    exists|i: int| 0 <= i < rows.len() && row_key(#[trigger] rows[i]) == k && rows[i].kind == ChangeKind::Conflicted
}

proof fn lemma_any_push(rows: Seq<FileChangeView>, k: Seq<char>)
    requires
        rows.len() > 0,
    ensures
        any_staged(rows, k) == (any_staged(rows.drop_last(), k) || (row_key(rows.last()) == k
            && rows.last().staged)),
        any_conflicted(rows, k) == (any_conflicted(rows.drop_last(), k) || (row_key(rows.last()) == k
            && rows.last().kind == ChangeKind::Conflicted)),
{
    let prev = rows.drop_last();
    let n = rows.len() - 1;
    assert(rows.last() == rows[n]);
    if any_staged(rows, k) {
        let i = choose|i: int| 0 <= i < rows.len() && row_key(#[trigger] rows[i]) == k && rows[i].staged;
        if i < n {
            assert(prev[i] == rows[i]);
        }
    }
    if any_staged(prev, k) {
        let i = choose|i: int| 0 <= i < prev.len() && row_key(#[trigger] prev[i]) == k && prev[i].staged;
        assert(prev[i] == rows[i]);
    }
    if any_conflicted(rows, k) {
        let i = choose|i: int|
            0 <= i < rows.len() && row_key(#[trigger] rows[i]) == k && rows[i].kind == ChangeKind::Conflicted;
        if i < n {
            assert(prev[i] == rows[i]);
        }
    }
    if any_conflicted(prev, k) {
        let i = choose|i: int|
            0 <= i < prev.len() && row_key(#[trigger] prev[i]) == k && prev[i].kind == ChangeKind::Conflicted;
        assert(prev[i] == rows[i]);
    }
}

/// Collapsing the working copy's rows keeps what matters of every row: an
/// entry is staged exactly when some row of its path is staged, and it is
/// a conflict exactly when some row of its path is (a conflict, once seen,
/// stays).
pub proof fn law_merge_working_copy_flags(rows: Seq<FileChangeView>)
    ensures
        forall|j: int|
            0 <= j < spec_merge_working_copy(rows).len() ==> {
                let e = #[trigger] spec_merge_working_copy(rows)[j];
                &&& e.staged == any_staged(rows, row_key(e))
                &&& (e.kind == ChangeKind::Conflicted) == any_conflicted(rows, row_key(e))
            },
    decreases rows.len(),
{
    if rows.len() > 0 {
        let prev = rows.drop_last();
        let row = rows.last();
        let acc = spec_merge_working_copy(prev);
        let s = spec_merge_working_copy(rows);
        law_merge_working_copy_flags(prev);
        law_merge_working_copy_keys(prev);
        law_sorted_keys_unique(acc);
        let k = row_key(row);
        lemma_insert_pos_facts(acc, k);
        let p = insert_pos(acc, k) as int;
        assert(s == upsert(acc, row));
        if p < acc.len() && row_key(acc[p]) == k {
            assert forall|j: int| 0 <= j < s.len() implies {
                let e = #[trigger] s[j];
                &&& e.staged == any_staged(rows, row_key(e))
                &&& (e.kind == ChangeKind::Conflicted) == any_conflicted(rows, row_key(e))
            } by {
                lemma_any_push(rows, row_key(s[j]));
                if j != p {
                    assert(s[j] == acc[j]);
                    assert(row_key(acc[j]) != row_key(acc[p]));
                }
            }
        } else {
            assert forall|j: int| 0 <= j < acc.len() implies row_key(#[trigger] acc[j]) != k by {
                if row_key(acc[j]) == k {
                    if j < p {
                        lemma_seq_lt_irreflexive(k);
                    } else if j > p {
                        assert(seq_lt(row_key(acc[p]), row_key(acc[j])));
                    }
                }
            }
            assert(!any_staged(prev, k) && !any_conflicted(prev, k)) by {
                if any_staged(prev, k) {
                    let i = choose|i: int| 0 <= i < prev.len() && row_key(#[trigger] prev[i]) == k && prev[i].staged;
                    let j = choose|j: int| 0 <= j < acc.len() && row_key(acc[j]) == row_key(#[trigger] prev[i]);
                    assert(row_key(acc[j]) != k);
                }
                if any_conflicted(prev, k) {
                    let i = choose|i: int|
                        0 <= i < prev.len() && row_key(#[trigger] prev[i]) == k && prev[i].kind
                            == ChangeKind::Conflicted;
                    let j = choose|j: int| 0 <= j < acc.len() && row_key(acc[j]) == row_key(#[trigger] prev[i]);
                    assert(row_key(acc[j]) != k);
                }
            }
            assert forall|j: int| 0 <= j < s.len() implies {
                let e = #[trigger] s[j];
                &&& e.staged == any_staged(rows, row_key(e))
                &&& (e.kind == ChangeKind::Conflicted) == any_conflicted(rows, row_key(e))
            } by {
                lemma_any_push(rows, row_key(s[j]));
                if j < p {
                    assert(s[j] == acc[j]);
                } else if j > p {
                    assert(s[j] == acc[j - 1]);
                }
            }
        }
    }
}

/// What a status code's letters say, whichever column they stand in: a
/// `U` (or `AA`, `DD`) is a conflict; otherwise an `R` a rename; otherwise
/// an `A` an addition; otherwise a `D` a deletion; `??` is untracked; and a
/// code with none of these letters is a modification.
pub proof fn law_status_letters(code: Seq<char>, i: int)
    ensures
        code == "??"@ ==> spec_classify(code) == ChangeKind::Untracked,
        0 <= i < code.len() && code[i] == 'U' ==> spec_classify(code) == ChangeKind::Conflicted,
        code == seq!['A', 'A'] || code == seq!['D', 'D'] ==> spec_classify(code) == ChangeKind::Conflicted,
        0 <= i < code.len() && code[i] == 'R' && !spec_has_char(code, 'U') ==> spec_classify(code)
            == ChangeKind::Renamed,
        0 <= i < code.len() && code[i] == 'A' && !spec_has_char(code, 'U') && !spec_has_char(code, 'R')
            && code != seq!['A', 'A'] ==> spec_classify(code) == ChangeKind::Added,
        0 <= i < code.len() && code[i] == 'D' && !spec_has_char(code, 'U') && !spec_has_char(code, 'R')
            && !spec_has_char(code, 'A') && code != seq!['D', 'D'] ==> spec_classify(code)
            == ChangeKind::Deleted,
        code != "??"@ && !spec_has_char(code, 'U') && !spec_has_char(code, 'R') && !spec_has_char(code, 'A')
            && !spec_has_char(code, 'D') ==> spec_classify(code) == ChangeKind::Modified,
{
    reveal_strlit("??");
    reveal_strlit("AA");
    reveal_strlit("DD");
    if 0 <= i < code.len() && code == "??"@ {
        assert(code[i] == '?');
    }
    if code == seq!['A', 'A'] {
        assert(code =~= "AA"@);
    }
    if code == seq!['D', 'D'] {
        assert(code =~= "DD"@);
    }
    if 0 <= i < code.len() && code == "AA"@ {
        assert(code[i] == 'A');
        assert(code =~= seq!['A', 'A']);
    }
    if 0 <= i < code.len() && code == "DD"@ {
        assert(code[i] == 'D');
        assert(code =~= seq!['D', 'D']);
    }
    if code == "AA"@ {
        assert(code[0] == 'A');
    }
    if code == "DD"@ {
        assert(code[0] == 'D');
    }
}

/// Where the first `n` bytes of a text end, when they end on a character.
proof fn lemma_byte_boundary_at(s: Seq<char>, k: int, n: int)
    requires
        0 <= k <= s.len(),
        spec_utf8_len(s.subrange(0, k)) == n,
    ensures
        byte_boundary(s, n) == Some(k),
{
    let c = choose|c: int| 0 <= c <= s.len() && spec_utf8_len(#[trigger] s.subrange(0, c)) == n;
    if c < k {
        lemma_utf8_len_prefix_strict(s, c, k);
    } else if c > k {
        lemma_utf8_len_prefix_strict(s, k, c);
    }
}

/// The facts about a record `XY <path>` that its parsing rests on.
proof fn lemma_record_parts(x: char, y: char, path: Seq<char>)
    requires
        (x as u32) < 0x80,
        (y as u32) < 0x80,
        path.len() > 0,
    ensures
        spec_utf8_len(seq![x, y, ' '] + path) >= 4,
        byte_boundary(seq![x, y, ' '] + path, 2) == Some(2int),
        byte_boundary(seq![x, y, ' '] + path, 3) == Some(3int),
        (seq![x, y, ' '] + path).subrange(0, 2) == seq![x, y],
        (seq![x, y, ' '] + path).subrange(3, (seq![x, y, ' '] + path).len() as int) == path,
{
    let f = seq![x, y, ' '] + path;
    assert(f.drop_first() =~= seq![y, ' '] + path);
    assert(f.drop_first().drop_first() =~= seq![' '] + path);
    assert(f.drop_first().drop_first().drop_first() =~= path);
    assert(spec_utf8_len(path) >= 1) by {
        assert(spec_utf8_len(path) == spec_utf8_width(path[0]) + spec_utf8_len(path.drop_first()));
    }
    assert(spec_utf8_len(f) == 3 + spec_utf8_len(path)) by {
        let f1 = f.drop_first();
        let f2 = f1.drop_first();
        assert(f[0] == x && f1[0] == y && f2[0] == ' ');
        assert(spec_utf8_len(f2) == spec_utf8_width(' ') + spec_utf8_len(f2.drop_first()));
        assert(spec_utf8_len(f1) == spec_utf8_width(y) + spec_utf8_len(f2));
        assert(spec_utf8_len(f) == spec_utf8_width(x) + spec_utf8_len(f1));
    }
    let s2 = f.subrange(0, 2);
    let s3 = f.subrange(0, 3);
    assert(s2.drop_first().drop_first() =~= Seq::<char>::empty());
    assert(spec_utf8_len(s2) == 2) by {
        assert(s2[0] == x && s2.drop_first()[0] == y);
        assert(spec_utf8_len(s2.drop_first()) == spec_utf8_width(y) + spec_utf8_len(s2.drop_first().drop_first()));
    }
    assert(s3.drop_first().drop_first().drop_first() =~= Seq::<char>::empty());
    assert(spec_utf8_len(s3) == 3) by {
        assert(s3[0] == x && s3.drop_first()[0] == y && s3.drop_first().drop_first()[0] == ' ');
        let t = s3.drop_first().drop_first();
        assert(spec_utf8_len(t) == spec_utf8_width(' ') + spec_utf8_len(t.drop_first()));
        assert(spec_utf8_len(s3.drop_first()) == spec_utf8_width(y) + spec_utf8_len(t));
    }
    lemma_byte_boundary_at(f, 2, 2);
    lemma_byte_boundary_at(f, 3, 3);
    assert(f.subrange(0, 2) =~= seq![x, y]);
    assert(f.subrange(3, f.len() as int) =~= path);
}

/// One porcelain record `XY <path>` (with ASCII status letters `X` for the
/// index and `Y` for the worktree) is one row: the path after the code, the
/// kind its two letters say (see `law_status_letters`), no old path, and
/// staged exactly when the index column holds a change (not ` ` or `?`).
pub proof fn law_porcelain_record(x: char, y: char, path: Seq<char>)
    requires
        (x as u32) < 0x80,
        (y as u32) < 0x80,
        path.len() > 0,
    ensures
        parse_from(seq![seq![x, y, ' '] + path], 0) == Some(
            Ok::<Seq<FileChangeView>, ()>(
                seq![
                    FileChangeView {
                        path,
                        old_path: None,
                        kind: spec_classify(seq![x, y]),
                        staged: x != ' ' && x != '?',
                    },
                ],
            ),
        ),
{
    let f = seq![x, y, ' '] + path;
    let fields = seq![f];
    lemma_record_parts(x, y, path);
    assert(parse_from(fields, 1) == Some(Ok::<Seq<FileChangeView>, ()>(Seq::empty())));
    let row = FileChangeView {
        path,
        old_path: None,
        kind: spec_classify(seq![x, y]),
        staged: x != ' ' && x != '?',
    };
    assert(seq![row] + Seq::<FileChangeView>::empty() =~= seq![row]);
}

/// A rename record `XY <new path>` followed by its old path is one row
/// that carries both paths.
pub proof fn law_porcelain_rename_record(x: char, y: char, path: Seq<char>, old: Seq<char>)
    requires
        (x as u32) < 0x80,
        (y as u32) < 0x80,
        path.len() > 0,
        spec_classify(seq![x, y]) == ChangeKind::Renamed,
    ensures
        parse_from(seq![seq![x, y, ' '] + path, old], 0) == Some(
            Ok::<Seq<FileChangeView>, ()>(
                seq![
                    FileChangeView {
                        path,
                        old_path: Some(old),
                        kind: ChangeKind::Renamed,
                        staged: x != ' ' && x != '?',
                    },
                ],
            ),
        ),
{
    let fields = seq![seq![x, y, ' '] + path, old];
    lemma_record_parts(x, y, path);
    assert(parse_from(fields, 2) == Some(Ok::<Seq<FileChangeView>, ()>(Seq::empty())));
    let row = FileChangeView { path, old_path: Some(old), kind: ChangeKind::Renamed, staged: x != ' ' && x != '?' };
    assert(seq![row] + Seq::<FileChangeView>::empty() =~= seq![row]);
}

/// The records of a porcelain listing and its rows: every row takes one
/// record, or two for a rename (its old path), so there are no more rows
/// than records and at least half as many; with no rename there is one row
/// per record. The listing is refused as too short exactly when a record
/// read as a status entry holds under four bytes: a refusal points at such
/// a record, and when every record is long enough a parsable listing gives
/// rows.
pub proof fn law_porcelain_records(fields: Seq<Seq<char>>, i: int)
    requires
        0 <= i <= fields.len(),
    ensures
        parse_from(fields, i) matches Some(Ok(rows)) ==> rows.len() <= fields.len() - i && 2 * rows.len()
            >= fields.len() - i,
        parse_from(fields, i) matches Some(Ok(rows)) ==> ((forall|k: int|
            0 <= k < rows.len() ==> (#[trigger] rows[k]).kind != ChangeKind::Renamed) ==> rows.len()
            == fields.len() - i),
        parse_from(fields, i) == Some(Err::<Seq<FileChangeView>, ()>(())) ==> exists|j: int|
            i <= j < fields.len() && spec_utf8_len(#[trigger] fields[j]) < 4,
        parse_from(fields, i) is Some && (forall|j: int|
            i <= j < fields.len() ==> spec_utf8_len(#[trigger] fields[j]) >= 4) ==> parse_from(fields, i)
            matches Some(Ok(_)),
    decreases fields.len() - i,
{
    if i < fields.len() {
        let f = fields[i];
        if spec_utf8_len(f) >= 4 {
            match (byte_boundary(f, 2), byte_boundary(f, 3)) {
                (Some(k2), Some(k3)) => {
                    let code = f.subrange(0, k2);
                    let kind = spec_classify(code);
                    let renamed = kind == ChangeKind::Renamed && i + 1 < fields.len();
                    let next = if renamed {
                        i + 2
                    } else {
                        i + 1
                    };
                    law_porcelain_records(fields, next);
                    if parse_from(fields, next) is Some && parse_from(fields, next)->0 is Ok {
                        let rest = parse_from(fields, next)->0->Ok_0;
                        let rows = parse_from(fields, i)->0->Ok_0;
                        assert(rows.len() == rest.len() + 1);
                        assert(rows[0].kind == kind);
                        assert forall|k: int| 0 <= k < rest.len() implies rest[k] == rows[k + 1] by {}
                    }
                },
                _ => {},
            }
        }
    }
}

/// Keys strictly increasing means no key is listed twice.
pub proof fn law_sorted_keys_unique(acc: Seq<FileChangeView>)
    requires
        keys_sorted(acc),
    ensures
        forall|i: int, j: int|
            0 <= i < acc.len() && 0 <= j < acc.len() && i != j ==> row_key(#[trigger] acc[i])
                != row_key(#[trigger] acc[j]),
{
    assert forall|i: int, j: int|
        0 <= i < acc.len() && 0 <= j < acc.len() && i != j implies row_key(#[trigger] acc[i])
        != row_key(#[trigger] acc[j]) by {
        if i < j {
            lemma_seq_lt_irreflexive(row_key(acc[i]));
        } else {
            lemma_seq_lt_irreflexive(row_key(acc[j]));
        }
    }
}

} // verus!

verus! {

// ───────────────────────── branch names ─────────────────────────

/// Characters of `s` each replaced by its lowercase mapping.
pub open spec fn lower_all(s: Seq<char>) -> Seq<char>
    decreases s.len(),
{
    if s.len() == 0 {
        Seq::empty()
    } else {
        lower_all(s.drop_last()) + char_lowercase(s.last())
    }
}

/// ASCII letters and digits kept, everything else a dash.
pub open spec fn dashify(s: Seq<char>) -> Seq<char> {
    s.map_values(|c: char| if spec_is_ascii_alphanumeric(c) { c } else { '-' })
}

/// Pieces joined with a separator.
pub open spec fn join(pieces: Seq<Seq<char>>, sep: Seq<char>) -> Seq<char>
    decreases pieces.len(),
{
    if pieces.len() == 0 {
        Seq::empty()
    } else if pieces.len() == 1 {
        pieces[0]
    } else {
        join(pieces.drop_last(), sep) + sep + pieces.last()
    }
}

/// At most the first `n` pieces.
pub open spec fn take_at_most(pieces: Seq<Seq<char>>, n: nat) -> Seq<Seq<char>> {
    if pieces.len() > n {
        pieces.subrange(0, n as int)
    } else {
        pieces
    }
}

/// A branch-safe slug: lowercased, non-alphanumerics as dashes, at most five
/// non-empty words joined by dashes; "task" when nothing is left.
pub open spec fn spec_slug(value: Seq<char>) -> Seq<char> {
    slug_of_lowered(lower_all(value))
}

/// The slug of text that is already lowercased.
pub open spec fn slug_of_lowered(lowered: Seq<char>) -> Seq<char> {
    let words = take_at_most(drop_empty(spec_split(dashify(lowered), '-')), 5);
    let s = join(words, "-"@);
    if s.len() == 0 {
        "task"@
    } else {
        s
    }
}

/// Join pieces with a one-character separator.
pub fn join_chars(pieces: &Vec<Vec<char>>, n: usize, sep: char) -> (r: Vec<char>)
    requires
        n <= pieces.len(),
    ensures
        r@ == join(Seq::new(n as nat, |i: int| pieces@[i]@), seq![sep]),
{
    let ghost ps = Seq::new(n as nat, |i: int| pieces@[i]@);
    let mut out: Vec<char> = Vec::new();
    let mut i: usize = 0;
    assert(ps.subrange(0, 0) =~= Seq::<Seq<char>>::empty());
    while i < n
        invariant
            i <= n <= pieces.len(),
            ps == Seq::new(n as nat, |i: int| pieces@[i]@),
            out@ == join(ps.subrange(0, i as int), seq![sep]),
        decreases n - i,
    {
        let ghost before = out@;
        assert(ps.subrange(0, i + 1).drop_last() =~= ps.subrange(0, i as int));
        assert(ps.subrange(0, i + 1).last() == pieces@[i as int]@);
        if i > 0 {
            out.push(sep);
            let p = &pieces[i];
            let mut k: usize = 0;
            while k < p.len()
                invariant
                    k <= p.len(),
                    out@ == before + seq![sep] + p@.subrange(0, k as int),
                decreases p.len() - k,
            {
                out.push(p[k]);
                k = k + 1;
                assert(out@ =~= before + seq![sep] + p@.subrange(0, k as int));
            }
            assert(p@.subrange(0, p.len() as int) =~= p@);
        } else {
            let p = &pieces[i];
            let mut k: usize = 0;
            while k < p.len()
                invariant
                    k <= p.len(),
                    out@ == p@.subrange(0, k as int),
                decreases p.len() - k,
            {
                out.push(p[k]);
                k = k + 1;
                assert(out@ =~= p@.subrange(0, k as int));
            }
            assert(p@.subrange(0, p.len() as int) =~= p@);
            assert(ps.subrange(0, 1)[0] == ps[0]);
        }
        i = i + 1;
    }
    assert(ps.subrange(0, n as int) =~= ps);
    out
}

/// Branch-safe slug of a task title.
pub fn slug(value: &str) -> (r: String)
    ensures
        r@ == spec_slug(value@),
        spec_all_ascii(value@) ==> r@ == slug_of_lowered(spec_ascii_lower(value@)),
{
    let v = chars_of(value);
    let mut lowered: Vec<char> = Vec::new();
    let mut i: usize = 0;
    while i < v.len()
        invariant
            i <= v.len(),
            v@ == value@,
            lowered@ == lower_all(v@.subrange(0, i as int)),
            spec_all_ascii(v@) ==> lowered@ == spec_ascii_lower(v@.subrange(0, i as int)),
        decreases v.len() - i,
    {
        let l = lowercase_char(v[i]);
        assert(v@.subrange(0, i + 1).drop_last() =~= v@.subrange(0, i as int));
        let ghost lowered0 = lowered@;
        let mut k: usize = 0;
        let ghost before = lowered@;
        while k < l.len()
            invariant
                k <= l.len(),
                lowered@ == before + l@.subrange(0, k as int),
            decreases l.len() - k,
        {
            lowered.push(l[k]);
            k = k + 1;
            assert(lowered@ =~= before + l@.subrange(0, k as int));
        }
        assert(l@.subrange(0, l.len() as int) =~= l@);
        proof {
            if spec_all_ascii(v@) {
                assert(spec_is_ascii_char(v@[i as int]));
                assert(spec_ascii_lower(v@.subrange(0, i + 1)) =~= spec_ascii_lower(
                    v@.subrange(0, i as int),
                ).push(spec_ascii_lower_char(v@[i as int])));
                assert(lowered@ =~= lowered0 + l@);
            }
        }
        i = i + 1;
    }
    assert(v@.subrange(0, v.len() as int) =~= v@);
    let mut dashed: Vec<char> = Vec::new();
    let mut j: usize = 0;
    while j < lowered.len()
        invariant
            j <= lowered.len(),
            dashed@ == dashify(lowered@.subrange(0, j as int)),
        decreases lowered.len() - j,
    {
        let c = lowered[j];
        dashed.push(if is_ascii_alphanumeric(c) { c } else { '-' });
        j = j + 1;
        assert(dashed@ =~= dashify(lowered@.subrange(0, j as int)));
    }
    assert(lowered@.subrange(0, lowered.len() as int) =~= lowered@);
    let words = split_nonempty(&dashed, '-');
    let n = if words.len() > 5 {
        5
    } else {
        words.len()
    };
    let joined = join_chars(&words, n, '-');
    proof {
        let all = drop_empty(spec_split(dashed@, '-'));
        assert(Seq::new(n as nat, |i: int| words@[i]@) =~= take_at_most(all, 5));
        reveal_strlit("-");
        assert(seq!['-'] =~= "-"@);
    }
    if joined.len() == 0 {
        owned("task")
    } else {
        string_of(&joined)
    }
}

/// Name of a task's worktree directory and its branch:
/// the first (up to) eight bytes of the task id, and `codex/<slug>-<short>`.
pub open spec fn spec_worktree_names(task_id: Seq<char>, title: Seq<char>) -> Option<(Seq<char>, Seq<char>)> {
    let n = if spec_utf8_len(task_id) < 8 {
        spec_utf8_len(task_id) as int
    } else {
        8
    };
    match byte_boundary(task_id, n) {
        Some(k) => {
            let short = task_id.subrange(0, k);
            Some((short, "codex/"@ + spec_slug(title) + "-"@ + short))
        },
        None => None,
    }
}

/// The message of the refusal when the project is not in a repository.
pub open spec fn not_a_repo_message() -> Seq<char> {
    "目录不是 Git 仓库"@
}

/// Names for a new task worktree inside the repository `root` (the primary
/// checkout, `None` when the project is not in a repository): the directory
/// name and the branch.
pub fn create_worktree(root: Option<String>, task_id: &str, title: &str) -> (r: Result<(String, String), String>)
    requires
        spec_worktree_names(task_id@, title@) is Some,
    ensures
        match r {
            Ok((short, branch)) => root is Some && spec_worktree_names(task_id@, title@) == Some(
                (short@, branch@),
            ),
            Err(e) => root is None && e@ == not_a_repo_message(),
        },
        spec_all_ascii(title@) ==> (r matches Ok((short, branch)) ==> branch@ == "codex/"@
            + slug_of_lowered(spec_ascii_lower(title@)) + "-"@ + short@),
{
    if root.is_none() {
        return Err(owned("目录不是 Git 仓库"));
    }
    let id = chars_of(task_id);
    let n: usize = if utf8_len_at_least(&id, 8) {
        8
    } else {
        byte_len(&id)
    };
    let k = byte_boundary_exec(&id, n);
    match k {
        Some(k) => {
            let short = slice_chars(&id, 0, k);
            let mut branch = chars_of("codex/");
            extend_chars(&mut branch, slug(title).as_str());
            branch.push('-');
            let mut j: usize = 0;
            let ghost before = branch@;
            while j < short.len()
                invariant
                    j <= short.len(),
                    branch@ == before + short@.subrange(0, j as int),
                decreases short.len() - j,
            {
                branch.push(short[j]);
                j = j + 1;
                assert(branch@ =~= before + short@.subrange(0, j as int));
            }
            proof {
                reveal_strlit("-");
                assert(short@.subrange(0, short.len() as int) =~= short@);
                assert(branch@ =~= "codex/"@ + spec_slug(title@) + "-"@ + short@);
            }
            Ok((string_of(&short), string_of(&branch)))
        },
        None => {
            assert(false);
            Err(owned("目录不是 Git 仓库"))
        },
    }
}

/// Byte length of the UTF-8 encoding of `v`, when under eight.
fn byte_len(v: &Vec<char>) -> (r: usize)
    requires
        spec_utf8_len(v@) < 8,
    ensures
        r == spec_utf8_len(v@),
{
    let mut acc: usize = 0;
    let mut i: usize = 0;
    assert(v@.subrange(0, 0) =~= Seq::<char>::empty());
    while i < v.len()
        invariant
            i <= v.len(),
            acc == spec_utf8_len(v@.subrange(0, i as int)),
            spec_utf8_len(v@) < 8,
        decreases v.len() - i,
    {
        proof {
            crate::text::lemma_utf8_len_push(v@.subrange(0, i as int), v@[i as int]);
            assert(v@.subrange(0, i as int).push(v@[i as int]) =~= v@.subrange(0, i + 1));
            crate::text::lemma_utf8_len_prefix_le(v@, i + 1);
        }
        acc = acc + crate::text::utf8_width(v[i]);
        i = i + 1;
    }
    assert(v@.subrange(0, v.len() as int) =~= v@);
    acc
}

/// The message refusing a branch that already exists.
pub fn branch_exists_message(branch: &str) -> (r: String)
    ensures
        r@ == "任务分支已存在："@ + branch@,
{
    crate::text::concat("任务分支已存在：", branch)
}

} // verus!

verus! {

// ───────────────────────── commits ─────────────────────────

pub struct CommitFileChangeView {
    pub path: Seq<char>,
    pub old_path: Option<Seq<char>>,
    pub status: char,
    pub additions: u32,
    pub deletions: u32,
}

impl View for CommitFileChange {
    type V = CommitFileChangeView;

    open spec fn view(&self) -> CommitFileChangeView {
        CommitFileChangeView {
            path: self.path@,
            old_path: match self.old_path {
                Some(p) => Some(p@),
                None => None,
            },
            status: self.status,
            additions: self.additions,
            deletions: self.deletions,
        }
    }
}

pub open spec fn commit_files_view(v: Seq<CommitFileChange>) -> Seq<CommitFileChangeView> {
    Seq::new(v.len(), |i: int| v[i]@)
}

/// A `--numstat` line: additions, deletions and the (new) path; `-` or
/// other unparsable counts read as zero.
pub open spec fn numstat_entry(line: Seq<char>) -> Option<(Seq<char>, u32, u32)> {
    let parts = spec_split(line, '\t');
    if parts.len() < 3 {
        None
    } else {
        let adds = match spec_parse_u32(parts[0]) {
            Some(v) => v,
            None => 0,
        };
        let dels = match spec_parse_u32(parts[1]) {
            Some(v) => v,
            None => 0,
        };
        let key = if parts.len() >= 4 {
            parts[3]
        } else {
            parts[2]
        };
        Some((key, adds, dels))
    }
}

/// A text with no `sep` in it is one piece.
pub proof fn lemma_split_single(a: Seq<char>, sep: char)
    requires
        forall|k: int| 0 <= k < a.len() ==> a[k] != sep,
    ensures
        spec_split(a, sep) == seq![a],
    decreases a.len(),
{
    if a.len() > 0 {
        lemma_split_single(a.drop_last(), sep);
        assert(a.drop_last().push(a.last()) =~= a);
    } else {
        assert(a =~= Seq::<char>::empty());
    }
}

/// Splitting at a separator splits each side.
pub proof fn lemma_split_join(a: Seq<char>, b: Seq<char>, sep: char)
    ensures
        spec_split(a + seq![sep] + b, sep) == spec_split(a, sep) + spec_split(b, sep),
    decreases b.len(),
{
    lemma_split_nonempty(a, sep);
    if b.len() == 0 {
        assert((a + seq![sep] + b).drop_last() =~= a);
        assert(spec_split(b, sep) =~= seq![Seq::<char>::empty()]);
        assert(spec_split(a, sep).push(Seq::<char>::empty()) =~= spec_split(a, sep) + seq![Seq::<char>::empty()]);
    } else {
        let s = a + seq![sep] + b;
        assert(s.drop_last() =~= a + seq![sep] + b.drop_last());
        lemma_split_join(a, b.drop_last(), sep);
        lemma_split_nonempty(b.drop_last(), sep);
        assert(s.last() == b.last());
        let pa = spec_split(a, sep);
        let pb = spec_split(b.drop_last(), sep);
        if b.last() == sep {
            assert((pa + pb).push(Seq::<char>::empty()) =~= pa + pb.push(Seq::<char>::empty()));
        } else {
            let joined = pa + pb;
            assert(joined.last() == pb.last());
            assert(joined.update(joined.len() - 1, joined.last().push(b.last())) =~= pa + pb.update(
                pb.len() - 1,
                pb.last().push(b.last()),
            ));
        }
    }
}

/// A `--numstat` line `<adds>\t<dels>\t<path>` gives the path its additions
/// from the first number and its deletions from the second; and a commit
/// whose name-status lists that path (with any status letter other than a
/// rename or copy) shows it with those counts.
pub proof fn law_numstat_counts(adds: Seq<char>, dels: Seq<char>, path: Seq<char>, a: u32, d: u32, st: char)
    requires
        spec_parse_u32(adds) == Some(a),
        spec_parse_u32(dels) == Some(d),
        forall|k: int| 0 <= k < adds.len() ==> adds[k] != '\t',
        forall|k: int| 0 <= k < dels.len() ==> dels[k] != '\t',
        forall|k: int| 0 <= k < path.len() ==> path[k] != '\t',
        st != '\t' && st != 'R' && st != 'C',
    ensures
        numstat_entry(adds + seq!['\t'] + (dels + seq!['\t'] + path)) == Some((path, a, d)),
        stat_lookup(seq![adds + seq!['\t'] + (dels + seq!['\t'] + path)], path) == (a, d),
        ({
            let files = spec_commit_files(
                seq![seq![st] + seq!['\t'] + path],
                seq![adds + seq!['\t'] + (dels + seq!['\t'] + path)],
            );
            files.len() == 1 && files[0].path == path && files[0].additions == a && files[0].deletions == d
        }),
{
    let line = adds + seq!['\t'] + (dels + seq!['\t'] + path);
    lemma_split_join(adds, dels + seq!['\t'] + path, '\t');
    lemma_split_join(dels, path, '\t');
    lemma_split_single(adds, '\t');
    lemma_split_single(dels, '\t');
    lemma_split_single(path, '\t');
    assert(spec_split(line, '\t') =~= seq![adds, dels, path]);
    let lines = seq![line];
    assert(lines.drop_last() =~= Seq::<Seq<char>>::empty());
    let ns = seq![st] + seq!['\t'] + path;
    lemma_split_join(seq![st], path, '\t');
    lemma_split_single(seq![st], '\t');
    assert(spec_split(ns, '\t') =~= seq![seq![st], path]);
    assert(seq![st][0] == st);
    assert(name_status_entry(ns) == Some((st, path, None::<Seq<char>>)));
    assert(seq![ns].drop_last() =~= Seq::<Seq<char>>::empty());
    assert(seq![ns].last() == ns);
    assert(spec_commit_files(Seq::<Seq<char>>::empty(), lines) =~= Seq::<CommitFileChangeView>::empty());
}

/// Counts recorded for a path: those of the last numstat line naming it.
pub open spec fn stat_lookup(lines: Seq<Seq<char>>, key: Seq<char>) -> (u32, u32)
    decreases lines.len(),
{
    if lines.len() == 0 {
        (0, 0)
    } else {
        match numstat_entry(lines.last()) {
            Some((k, a, d)) if k == key => (a, d),
            _ => stat_lookup(lines.drop_last(), key),
        }
    }
}

/// A `--name-status` line: its status letter and paths (renames and copies
/// list the old path first).
pub open spec fn name_status_entry(line: Seq<char>) -> Option<(char, Seq<char>, Option<Seq<char>>)> {
    let parts = spec_split(line, '\t');
    if parts[0].len() == 0 {
        None
    } else if parts[0][0] == 'R' || parts[0][0] == 'C' {
        if parts.len() >= 3 {
            Some((parts[0][0], parts[2], Some(parts[1])))
        } else {
            None
        }
    } else if parts.len() >= 2 {
        Some((parts[0][0], parts[1], None))
    } else {
        None
    }
}

/// The files of a commit: one per name-status line, with the counts of
/// the numstat lines.
pub open spec fn spec_commit_files(status_lines: Seq<Seq<char>>, num_lines: Seq<Seq<char>>) -> Seq<
    CommitFileChangeView,
>
    decreases status_lines.len(),
{
    if status_lines.len() == 0 {
        Seq::empty()
    } else {
        let prev = spec_commit_files(status_lines.drop_last(), num_lines);
        match name_status_entry(status_lines.last()) {
            Some((st, path, old)) => {
                let counts = stat_lookup(num_lines, path);
                prev.push(
                    CommitFileChangeView {
                        path,
                        old_path: old,
                        status: st,
                        additions: counts.0,
                        deletions: counts.1,
                    },
                )
            },
            None => prev,
        }
    }
}

pub open spec fn total_additions(files: Seq<CommitFileChangeView>) -> nat
    decreases files.len(),
{
    if files.len() == 0 {
        0
    } else {
        total_additions(files.drop_last()) + files.last().additions as nat
    }
}

pub open spec fn total_deletions(files: Seq<CommitFileChangeView>) -> nat
    decreases files.len(),
{
    if files.len() == 0 {
        0
    } else {
        total_deletions(files.drop_last()) + files.last().deletions as nat
    }
}

/// "N file(s) changed, A insertions(+), D deletions(-)".
pub open spec fn spec_commit_summary(n: nat, adds: nat, dels: nat) -> Seq<char> {
    spec_decimal(n) + " file"@ + (if n == 1 {
        ""@
    } else {
        "s"@
    }) + " changed, "@ + spec_decimal(adds) + " insertions(+), "@ + spec_decimal(dels)
        + " deletions(-)"@
}

/// Metadata of `git log -1 --pretty=format:%h%n%an <%ae>%n%ci%n%s%n%n%b`:
/// hash (defaulting to `rev`), author, date, subject, and the trimmed body
/// after the blank line.
pub open spec fn spec_commit_meta(rev: Seq<char>, text: Seq<char>) -> (
    Seq<char>,
    Seq<char>,
    Seq<char>,
    Seq<char>,
    Seq<char>,
) {
    let ls = spec_lines(text);
    (
        if ls.len() > 0 {
            ls[0]
        } else {
            rev
        },
        if ls.len() > 1 {
            ls[1]
        } else {
            Seq::empty()
        },
        if ls.len() > 2 {
            ls[2]
        } else {
            Seq::empty()
        },
        if ls.len() > 3 {
            ls[3]
        } else {
            Seq::empty()
        },
        spec_trim(
            join(
                if ls.len() > 5 {
                    ls.subrange(5, ls.len() as int)
                } else {
                    Seq::empty()
                },
                "\n"@,
            ),
        ),
    )
}

/// Line `i` of `ls`, or `default`.
fn line_or(ls: &Vec<Vec<char>>, i: usize, default: &str) -> (r: String)
    ensures
        r@ == if i < ls@.len() {
            ls@[i as int]@
        } else {
            default@
        },
{
    if i < ls.len() {
        string_of(&ls[i])
    } else {
        owned(default)
    }
}

/// Hash, author, date, subject and body of a commit's metadata text.
pub fn parse_commit_meta(rev: &str, text: &str) -> (r: (String, String, String, String, String))
    ensures
        (r.0@, r.1@, r.2@, r.3@, r.4@) == spec_commit_meta(rev@, text@),
{
    let ls = lines_of(&chars_of(text));
    let ghost sl = spec_lines(text@);
    assert(ls@.len() == sl.len());
    let hash = line_or(&ls, 0, rev);
    let author = line_or(&ls, 1, "");
    let date = line_or(&ls, 2, "");
    let subject = line_or(&ls, 3, "");
    proof {
        reveal_strlit("");
    }
    let mut body_lines: Vec<Vec<char>> = Vec::new();
    let mut i: usize = 5;
    while i < ls.len()
        invariant
            5 <= i,
            ls@.len() == sl.len(),
            sl == spec_lines(text@),
            forall|k: int| 0 <= k < ls@.len() ==> (#[trigger] ls@[k])@ == sl[k],
            i <= ls.len() || (i == 5 && ls.len() <= 5),
            body_lines@.len() == if i <= ls.len() {
                i - 5
            } else {
                0
            },
            forall|k: int| 0 <= k < body_lines@.len() ==> (#[trigger] body_lines@[k])@ == sl[k + 5],
        decreases ls.len() - i,
    {
        body_lines.push(copy_chars(&ls[i]));
        i = i + 1;
    }
    let joined = join_chars(&body_lines, body_lines.len(), '\n');
    proof {
        let tail = if sl.len() > 5 {
            sl.subrange(5, sl.len() as int)
        } else {
            Seq::empty()
        };
        assert(Seq::new(body_lines@.len(), |k: int| body_lines@[k]@) =~= tail);
        reveal_strlit("\n");
        assert(seq!['\n'] =~= "\n"@);
    }
    let body = string_of(&trim_vec(&joined));
    (hash, author, date, subject, body)
}

/// The numstat entry of a line.
fn numstat_of(line: &Vec<char>) -> (r: Option<(Vec<char>, u32, u32)>)
    ensures
        match r {
            Some((k, a, d)) => numstat_entry(line@) == Some((k@, a, d)),
            None => numstat_entry(line@) is None,
        },
{
    let parts = split_chars(line, '\t');
    if parts.len() < 3 {
        return None;
    }
    let adds = match parse_u32(&parts[0]) {
        Some(v) => v,
        None => 0,
    };
    let dels = match parse_u32(&parts[1]) {
        Some(v) => v,
        None => 0,
    };
    let key = if parts.len() >= 4 {
        copy_chars(&parts[3])
    } else {
        copy_chars(&parts[2])
    };
    Some((key, adds, dels))
}

/// Counts of the last numstat line naming `key`.
fn lookup_stats(num_lines: &Vec<Vec<char>>, key: &Vec<char>) -> (r: (u32, u32))
    ensures
        r == stat_lookup(Seq::new(num_lines@.len(), |i: int| num_lines@[i]@), key@),
{
    let ghost nl = Seq::new(num_lines@.len(), |i: int| num_lines@[i]@);
    let mut i = num_lines.len();
    assert(nl.subrange(0, i as int) =~= nl);
    while i > 0
        invariant
            i <= num_lines.len(),
            nl == Seq::new(num_lines@.len(), |i: int| num_lines@[i]@),
            stat_lookup(nl.subrange(0, i as int), key@) == stat_lookup(nl, key@),
        decreases i,
    {
        let ghost sub = nl.subrange(0, i as int);
        assert(sub.last() == num_lines@[i - 1]@);
        match numstat_of(&num_lines[i - 1]) {
            Some((k, a, d)) => {
                if crate::text::eq_vec(&k, key) {
                    return (a, d);
                }
            },
            None => {},
        }
        assert(sub.drop_last() =~= nl.subrange(0, i - 1));
        i = i - 1;
    }
    (0, 0)
}

/// The name-status entry of a line.
fn name_status_of(line: &Vec<char>) -> (r: Option<(char, Vec<char>, Option<Vec<char>>)>)
    ensures
        match r {
            Some((st, p, o)) => name_status_entry(line@) == Some(
                (
                    st,
                    p@,
                    match o {
                        Some(x) => Some(x@),
                        None => None,
                    },
                ),
            ),
            None => name_status_entry(line@) is None,
        },
{
    let parts = split_chars(line, '\t');
    proof {
        lemma_split_nonempty(line@, '\t');
    }
    if parts[0].len() == 0 {
        return None;
    }
    let st = parts[0][0];
    if st == 'R' || st == 'C' {
        if parts.len() >= 3 {
            Some((st, copy_chars(&parts[2]), Some(copy_chars(&parts[1]))))
        } else {
            None
        }
    } else if parts.len() >= 2 {
        Some((st, copy_chars(&parts[1]), None))
    } else {
        None
    }
}

/// Files of a commit from its name-status and numstat listings.
pub fn commit_files(status_text: &str, num_text: &str) -> (r: Vec<CommitFileChange>)
    ensures
        commit_files_view(r@) == spec_commit_files(spec_lines(status_text@), spec_lines(num_text@)),
{
    let sl = lines_of(&chars_of(status_text));
    let nl = lines_of(&chars_of(num_text));
    let ghost ss = spec_lines(status_text@);
    let ghost ns = spec_lines(num_text@);
    assert(Seq::new(nl@.len(), |i: int| nl@[i]@) =~= ns);
    let mut files: Vec<CommitFileChange> = Vec::new();
    let mut i: usize = 0;
    assert(ss.subrange(0, 0) =~= Seq::<Seq<char>>::empty());
    assert(commit_files_view(files@) =~= Seq::<CommitFileChangeView>::empty());
    while i < sl.len()
        invariant
            i <= sl.len(),
            sl@.len() == ss.len(),
            ss == spec_lines(status_text@),
            ns == spec_lines(num_text@),
            Seq::new(nl@.len(), |i: int| nl@[i]@) == ns,
            forall|k: int| 0 <= k < sl@.len() ==> (#[trigger] sl@[k])@ == ss[k],
            commit_files_view(files@) == spec_commit_files(ss.subrange(0, i as int), ns),
        decreases sl.len() - i,
    {
        assert(ss.subrange(0, i + 1).drop_last() =~= ss.subrange(0, i as int));
        assert(ss.subrange(0, i + 1).last() == sl@[i as int]@);
        match name_status_of(&sl[i]) {
            Some((st, path, old)) => {
                let (additions, deletions) = lookup_stats(&nl, &path);
                let f = CommitFileChange {
                    path: string_of(&path),
                    old_path: match old {
                        Some(o) => Some(string_of(&o)),
                        None => None,
                    },
                    status: st,
                    additions,
                    deletions,
                };
                let ghost before = files@;
                files.push(f);
                proof {
                    lemma_commit_files_view_push(before, f);
                }
            },
            None => {},
        }
        i = i + 1;
    }
    assert(ss.subrange(0, sl.len() as int) =~= ss);
    files
}

pub proof fn lemma_commit_files_view_push(s: Seq<CommitFileChange>, f: CommitFileChange)
    ensures
        commit_files_view(s.push(f)) == commit_files_view(s).push(f@),
{
    assert(commit_files_view(s.push(f)) =~= commit_files_view(s).push(f@));
}

/// Whether the commit's addition and deletion totals fit in 32 bits.
pub open spec fn totals_fit(files: Seq<CommitFileChangeView>) -> bool {
    total_additions(files) <= u32::MAX && total_deletions(files) <= u32::MAX
}

/// Sum of additions and deletions over the files, when they fit in 32 bits.
pub fn commit_totals(files: &Vec<CommitFileChange>) -> (r: Option<(u32, u32)>)
    ensures
        match r {
            Some((a, d)) => totals_fit(commit_files_view(files@)) && a == total_additions(
                commit_files_view(files@),
            ) && d == total_deletions(commit_files_view(files@)),
            None => !totals_fit(commit_files_view(files@)),
        },
{
    let ghost fv = commit_files_view(files@);
    let mut a: u64 = 0;
    let mut d: u64 = 0;
    let mut i: usize = 0;
    assert(fv.subrange(0, 0) =~= Seq::<CommitFileChangeView>::empty());
    while i < files.len()
        invariant
            i <= files.len(),
            fv == commit_files_view(files@),
            a == total_additions(fv.subrange(0, i as int)),
            d == total_deletions(fv.subrange(0, i as int)),
            a <= u32::MAX,
            d <= u32::MAX,
        decreases files.len() - i,
    {
        assert(fv.subrange(0, i + 1).drop_last() =~= fv.subrange(0, i as int));
        a = a + files[i].additions as u64;
        d = d + files[i].deletions as u64;
        i = i + 1;
        if a > 0xffff_ffff || d > 0xffff_ffff {
            proof {
                lemma_totals_monotone(fv, i as int);
            }
            return None;
        }
    }
    assert(fv.subrange(0, files.len() as int) =~= fv);
    Some((a as u32, d as u32))
}

pub proof fn lemma_totals_monotone(fv: Seq<CommitFileChangeView>, i: int)
    requires
        0 <= i <= fv.len(),
    ensures
        total_additions(fv.subrange(0, i)) <= total_additions(fv),
        total_deletions(fv.subrange(0, i)) <= total_deletions(fv),
    decreases fv.len() - i,
{
    if i < fv.len() {
        lemma_totals_monotone(fv, i + 1);
        assert(fv.subrange(0, i + 1).drop_last() =~= fv.subrange(0, i));
    } else {
        assert(fv.subrange(0, i) =~= fv);
    }
}

/// The change summary line.
pub fn commit_summary(n: u64, adds: u64, dels: u64) -> (r: String)
    ensures
        r@ == spec_commit_summary(n as nat, adds as nat, dels as nat),
{
    let mut v = chars_of(decimal(n).as_str());
    extend_chars(&mut v, " file");
    if n != 1 {
        extend_chars(&mut v, "s");
    } else {
        proof {
            reveal_strlit("");
        }
    }
    extend_chars(&mut v, " changed, ");
    extend_chars(&mut v, decimal(adds).as_str());
    extend_chars(&mut v, " insertions(+), ");
    extend_chars(&mut v, decimal(dels).as_str());
    extend_chars(&mut v, " deletions(-)");
    proof {
        if n == 1 {
            assert(""@.len() == 0);
        }
    }
    string_of(&v)
}

/// The commit a failed command leaves: its error text.
pub open spec fn spec_show_commit_error(
    meta: GitOutput,
    status: GitOutput,
    num: GitOutput,
) -> Option<Seq<char>> {
    if !meta.success {
        Some(meta.stderr@)
    } else if !status.success {
        Some(status.stderr@)
    } else if !num.success {
        Some(num.stderr@)
    } else {
        None
    }
}

impl GitWorkspaceService {
    /// Commit metadata and changed files (no patch) from the outputs of
    /// `git log -1 --pretty=…`, `git diff-tree … --name-status` and
    /// `git diff-tree … --numstat` for `rev`; the first failed command's
    /// error text otherwise.
    pub fn show_commit(rev: &str, meta: &GitOutput, status: &GitOutput, num: &GitOutput) -> (r: Result<
        CommitDetail,
        String,
    >)
        requires
            (meta.success && status.success && num.success) ==> totals_fit(
                spec_commit_files(spec_lines(status.stdout@), spec_lines(num.stdout@)),
            ),
        ensures
            match r {
                Ok(d) => spec_show_commit_error(*meta, *status, *num) is None && {
                    let m = spec_commit_meta(rev@, meta.stdout@);
                    let files = spec_commit_files(
                        spec_lines(status.stdout@),
                        spec_lines(num.stdout@),
                    );
                    &&& (d.hash@, d.author@, d.date@, d.subject@, d.body@) == m
                    &&& commit_files_view(d.files@) == files
                    &&& d.summary@ == spec_commit_summary(
                        files.len(),
                        total_additions(files),
                        total_deletions(files),
                    )
                },
                Err(e) => spec_show_commit_error(*meta, *status, *num) == Some(e@),
            },
    {
        if !meta.success {
            return Err(meta.stderr.clone());
        }
        if !status.success {
            return Err(status.stderr.clone());
        }
        if !num.success {
            return Err(num.stderr.clone());
        }
        let (hash, author, date, subject, body) = parse_commit_meta(rev, meta.stdout.as_str());
        let files = commit_files(status.stdout.as_str(), num.stdout.as_str());
        let (a, d) = match commit_totals(&files) {
            Some(t) => t,
            None => {
                assert(false);
                (0, 0)
            },
        };
        let summary = commit_summary(files.len() as u64, a as u64, d as u64);
        assert(commit_files_view(files@).len() == files@.len());
        Ok(CommitDetail { hash, author, date, subject, body, files, summary })
    }

    /// Whether `show_commit` can total the listings' counts (they fit in 32 bits).
    pub fn commit_totals_fit(status_text: &str, num_text: &str) -> (r: bool)
        ensures
            r == totals_fit(spec_commit_files(spec_lines(status_text@), spec_lines(num_text@))),
    {
        let files = commit_files(status_text, num_text);
        commit_totals(&files).is_some()
    }
}

} // verus!

verus! {

// ───────────────────────── commands and their results ─────────────────────────

/// An owned argument list.
pub fn argv(parts: &[&str]) -> (r: Vec<String>)
    ensures
        strings_view(r@) == Seq::new(parts@.len(), |i: int| parts@[i]@),
{
    let mut out: Vec<String> = Vec::new();
    let mut i: usize = 0;
    while i < parts.len()
        invariant
            i <= parts@.len(),
            out@.len() == i,
            forall|k: int| 0 <= k < i ==> (#[trigger] out@[k])@ == parts@[k]@,
        decreases parts.len() - i,
    {
        out.push(owned(parts[i]));
        i = i + 1;
    }
    assert(strings_view(out@) =~= Seq::new(parts@.len(), |i: int| parts@[i]@));
    out
}

// ───────────────────────── slugs are branch-safe ─────────────────────────

pub open spec fn all_alnum(p: Seq<char>) -> bool {
    forall|j: int| 0 <= j < p.len() ==> spec_is_ascii_alphanumeric(#[trigger] p[j])
}

pub open spec fn pieces_alnum(ps: Seq<Seq<char>>) -> bool {
    forall|k: int| 0 <= k < ps.len() ==> all_alnum(#[trigger] ps[k])
}

pub open spec fn pieces_nonempty(ps: Seq<Seq<char>>) -> bool {
    forall|k: int| 0 <= k < ps.len() ==> (#[trigger] ps[k]).len() > 0
}

pub open spec fn alnum_or_dash(s: Seq<char>) -> bool {
    forall|i: int| 0 <= i < s.len() ==> spec_is_ascii_alphanumeric(#[trigger] s[i]) || s[i] == '-'
}

proof fn lemma_split_pieces_alnum(s: Seq<char>)
    requires
        alnum_or_dash(s),
    ensures
        pieces_alnum(spec_split(s, '-')),
    decreases s.len(),
{
    if s.len() > 0 {
        let d = s.drop_last();
        assert(alnum_or_dash(d)) by {
            assert forall|i: int| 0 <= i < d.len() implies spec_is_ascii_alphanumeric(#[trigger] d[i])
                || d[i] == '-' by {
                assert(d[i] == s[i]);
            }
        }
        lemma_split_pieces_alnum(d);
        lemma_split_nonempty(d, '-');
        let prev = spec_split(d, '-');
        let c = s.last();
        assert(c == s[s.len() - 1]);
        if c != '-' {
            let np = prev.last().push(c);
            assert(all_alnum(prev[prev.len() - 1]));
            assert(all_alnum(np)) by {
                assert forall|j: int| 0 <= j < np.len() implies spec_is_ascii_alphanumeric(#[trigger] np[j]) by {
                    if j < np.len() - 1 {
                        assert(np[j] == prev.last()[j]);
                    }
                }
            }
            let up = prev.update(prev.len() - 1, np);
            assert forall|k: int| 0 <= k < up.len() implies all_alnum(#[trigger] up[k]) by {
                if k < prev.len() - 1 {
                    assert(up[k] == prev[k]);
                }
            }
        } else {
            let pu = prev.push(Seq::<char>::empty());
            assert forall|k: int| 0 <= k < pu.len() implies all_alnum(#[trigger] pu[k]) by {
                if k < prev.len() {
                    assert(pu[k] == prev[k]);
                }
            }
        }
    }
}

proof fn lemma_drop_empty_clean(ps: Seq<Seq<char>>)
    requires
        pieces_alnum(ps),
    ensures
        pieces_alnum(drop_empty(ps)),
        pieces_nonempty(drop_empty(ps)),
    decreases ps.len(),
{
    if ps.len() > 0 {
        let d = ps.drop_last();
        assert(pieces_alnum(d)) by {
            assert forall|k: int| 0 <= k < d.len() implies all_alnum(#[trigger] d[k]) by {
                assert(d[k] == ps[k]);
            }
        }
        lemma_drop_empty_clean(d);
        assert(all_alnum(ps[ps.len() - 1]));
        if ps.last().len() > 0 {
            let r = drop_empty(d).push(ps.last());
            assert forall|k: int| 0 <= k < r.len() implies all_alnum(#[trigger] r[k]) && r[k].len() > 0 by {
                if k < r.len() - 1 {
                    assert(r[k] == drop_empty(d)[k]);
                }
            }
        }
    }
}

proof fn lemma_join_clean(ps: Seq<Seq<char>>)
    requires
        pieces_alnum(ps),
        pieces_nonempty(ps),
    ensures
        alnum_or_dash(join(ps, "-"@)),
        ps.len() > 0 ==> join(ps, "-"@).len() > 0 && spec_is_ascii_alphanumeric(join(ps, "-"@)[0])
            && spec_is_ascii_alphanumeric(join(ps, "-"@).last()),
        ps.len() == 0 ==> join(ps, "-"@).len() == 0,
    decreases ps.len(),
{
    reveal_strlit("-");
    if ps.len() == 1 {
        assert(all_alnum(ps[0]));
        assert(ps[0].len() > 0);
        assert(join(ps, "-"@) == ps[0]);
        assert(ps[0].last() == ps[0][ps[0].len() - 1]);
    } else if ps.len() > 1 {
        let d = ps.drop_last();
        assert(pieces_alnum(d) && pieces_nonempty(d)) by {
            assert forall|k: int| 0 <= k < d.len() implies all_alnum(#[trigger] d[k]) && d[k].len() > 0 by {
                assert(d[k] == ps[k]);
            }
        }
        lemma_join_clean(d);
        let a = join(d, "-"@);
        let l = ps.last();
        assert(all_alnum(ps[ps.len() - 1]) && ps[ps.len() - 1].len() > 0);
        let j = a + "-"@ + l;
        assert(join(ps, "-"@) == j);
        assert forall|i: int| 0 <= i < j.len() implies spec_is_ascii_alphanumeric(#[trigger] j[i]) || j[i] == '-' by {
            if i < a.len() {
                assert(j[i] == a[i]);
            } else if i == a.len() {
                assert(j[i] == '-');
            } else {
                assert(j[i] == l[i - a.len() - 1]);
            }
        }
        assert(j[0] == a[0]);
        assert(j.last() == l[l.len() - 1]);
    }
}

/// A slug is fit for a branch name: never empty, only ASCII letters, digits
/// and dashes, and neither starting nor ending with a dash.
pub proof fn law_slug_branch_safe(value: Seq<char>)
    ensures
        spec_slug(value).len() > 0,
        alnum_or_dash(spec_slug(value)),
        spec_is_ascii_alphanumeric(spec_slug(value)[0]),
        spec_is_ascii_alphanumeric(spec_slug(value).last()),
{
    let d = dashify(lower_all(value));
    assert(alnum_or_dash(d));
    lemma_split_pieces_alnum(d);
    let pieces = drop_empty(spec_split(d, '-'));
    lemma_drop_empty_clean(spec_split(d, '-'));
    let words = take_at_most(pieces, 5);
    assert(pieces_alnum(words) && pieces_nonempty(words)) by {
        assert forall|k: int| 0 <= k < words.len() implies all_alnum(#[trigger] words[k]) && words[k].len() > 0 by {
            assert(words[k] == pieces[k]);
        }
    }
    lemma_join_clean(words);
    if join(words, "-"@).len() == 0 {
        reveal_strlit("task");
        let t = "task"@;
        assert(alnum_or_dash(t)) by {
            assert forall|i: int| 0 <= i < t.len() implies spec_is_ascii_alphanumeric(#[trigger] t[i]) || t[i] == '-' by {}
        }
    }
}

/// The outcome of a git command that changes the repository: nothing when
/// it succeeded, its stderr when it failed.
pub fn git_write(out: &GitOutput) -> (r: Result<(), String>)
    ensures
        out.success ==> r is Ok,
        !out.success ==> (r matches Err(e) && e@ == out.stderr@),
{
    if out.success {
        Ok(())
    } else {
        Err(out.stderr.clone())
    }
}

/// `args` followed by `--` and the path.
fn with_path(mut args: Vec<String>, file: &str) -> (r: Vec<String>)
    ensures
        strings_view(r@) == strings_view(args@) + seq!["--"@, file@],
{
    let ghost a = args@;
    let dd = owned("--");
    args.push(dd);
    let f = owned(file);
    args.push(f);
    assert(strings_view(args@) =~= strings_view(a) + seq!["--"@, file@]);
    args
}

/// Lines of `log --pretty=format:%h\t%s`: hash and subject of each line
/// holding a tab (split at the first tab).
pub open spec fn spec_log_entries(lines: Seq<Seq<char>>) -> Seq<(Seq<char>, Seq<char>)>
    decreases lines.len(),
{
    if lines.len() == 0 {
        Seq::empty()
    } else {
        let prev = spec_log_entries(lines.drop_last());
        let parts = spec_split(lines.last(), '\t');
        if parts.len() >= 2 {
            prev.push((parts[0], lines.last().subrange(parts[0].len() + 1int, lines.last().len() as int)))
        } else {
            prev
        }
    }
}

/// Messages of `git log` that mean "no commits yet".
pub open spec fn is_empty_history_error(stderr: Seq<char>) -> bool {
    ||| spec_contains(stderr, "does not have any commits"@)
    ||| spec_contains(stderr, "unknown revision"@)
    ||| spec_contains(stderr, "bad default revision"@)
}

pub proof fn lemma_split_first_piece(s: Seq<char>, sep: char)
    ensures
        spec_split(s, sep).len() >= 2 ==> spec_split(s, sep)[0].len() < s.len() && s[spec_split(
            s,
            sep,
        )[0].len() as int] == sep && s.subrange(0, spec_split(s, sep)[0].len() as int)
            == spec_split(s, sep)[0],
        spec_split(s, sep).len() == 1 ==> spec_split(s, sep)[0] == s,
    decreases s.len(),
{
    lemma_split_nonempty(s, sep);
    if s.len() > 0 {
        lemma_split_first_piece(s.drop_last(), sep);
        lemma_split_nonempty(s.drop_last(), sep);
        let prev = spec_split(s.drop_last(), sep);
        if s.last() == sep {
            if prev.len() == 1 {
                assert(s.subrange(0, prev[0].len() as int) =~= prev[0]);
            } else {
                assert(s.subrange(0, prev[0].len() as int) =~= s.drop_last().subrange(
                    0,
                    prev[0].len() as int,
                ));
            }
        } else {
            if prev.len() == 1 {
                assert(prev[0].push(s.last()) =~= s);
            } else {
                assert(s.subrange(0, prev[0].len() as int) =~= s.drop_last().subrange(
                    0,
                    prev[0].len() as int,
                ));
            }
        }
    }
}

/// The first component of a path as text (`Path::components().next()`,
/// then `as_os_str`). What the first component is depends on the
/// platform's prefixes and separators; stated: a path that is not empty has
/// one, the empty path has none, and a component is never empty.
#[verifier::external_body]
fn first_component(path: &str) -> (r: Option<String>)
    ensures
        r is None ==> path@.len() == 0,
        r is None || path@.len() > 0,
        r matches Some(c) ==> c@.len() > 0,
{
    std::path::Path::new(path).components().next().map(|c| c.as_os_str().to_string_lossy().into_owned())
}

/// The parent of a path of the simple form `q/c` is a plain base: more
/// components are added to it after a separator.
pub proof fn lemma_simple_parent_plain(path: Seq<char>)
    requires
        simple_parent(path) is Some,
    ensures
        plain_base(simple_parent(path)->0),
{
    let i = last_index_of(path, '/');
    let q = path.subrange(0, i);
    assert(simple_last_split(path, i));
    assert(q.last() == q[q.len() - 1]);
    assert(q[q.len() - 1] != '\\');
    assert(q[0] != '\\');
    if q.len() == 2 {
        assert(q[1] != ':');
    }
}

/// The worktree directory under `root`'s parent (the root itself when it
/// has none): `.bwt` pushed onto it.
pub open spec fn worktree_fallback(root: Seq<char>, f: Seq<char>) -> bool {
    exists|b: Seq<char>|
        spec_starts_with(root, b) && (simple_parent(root) matches Some(p) ==> b == p) && pushed(
            b,
            ".bwt"@,
            f,
        )
}

/// Where the worktrees of the repository at `root` may go, in the order
/// they are tried: on Windows `<drive>\tmp\bwt` first (the drive is the
/// first component of `root`, `C:` when there is none, so that worktree
/// paths stay short), then `.bwt` beside the repository.
pub fn worktree_parent_candidates(root: &str, windows: bool) -> (r: Vec<String>)
    ensures
        r.len() == if windows { 2int } else { 1int },
        worktree_fallback(root@, r@.last()@),
        simple_parent(root@) matches Some(p) ==> sep_joined(p, ".bwt"@, r@.last()@),
        windows ==> exists|d: Seq<char>| d.len() > 0 && r[0]@ == d + "\\tmp\\bwt"@,
        windows && root@.len() == 0 ==> r[0]@ == "C:\\tmp\\bwt"@,
{
    proof {
        reveal_strlit(".bwt");
    }
    let base = match path_parent(root) {
        Some(p) => p,
        None => owned(root),
    };
    let fallback = path_join(base.as_str(), ".bwt");
    proof {
        if simple_parent(root@) is Some {
            lemma_simple_parent_plain(root@);
        }
        assert(spec_starts_with(root@, base@)) by {
            if base@ == root@ {
                assert(root@.subrange(0, root@.len() as int) =~= root@);
            }
        }
        assert(pushed(base@, ".bwt"@, fallback@));
    }
    let mut out: Vec<String> = Vec::new();
    if windows {
        let drive = match first_component(root) {
            Some(c) => c,
            None => owned("C:"),
        };
        proof {
            reveal_strlit("C:");
        }
        let mut v = chars_of(drive.as_str());
        extend_chars(&mut v, "\\tmp\\bwt");
        proof {
            if root@.len() == 0 {
                assert(v@ =~= "C:"@ + "\\tmp\\bwt"@);
                reveal_strlit("C:\\tmp\\bwt");
                reveal_strlit("\\tmp\\bwt");
            }
        }
        out.push(string_of(&v));
    }
    out.push(fallback);
    out
}

/// Arguments of `git diff` for one file (or all) of the worktree or index.
pub open spec fn spec_diff_args(file: Option<Seq<char>>, staged: bool) -> Seq<Seq<char>> {
    seq!["diff"@, "--no-ext-diff"@, "--no-color"@] + (if staged {
        seq!["--cached"@]
    } else {
        Seq::empty()
    }) + match file {
        Some(f) => seq!["--"@, f],
        None => Seq::empty(),
    }
}

/// A diff command's text, or its error text.
pub open spec fn spec_diff_result(o: GitOutputView) -> Result<Seq<char>, Seq<char>> {
    if o.success {
        Ok(o.stdout)
    } else {
        Err(o.stderr)
    }
}

/// The text of `git diff --no-index` (which exits with 1 when the files
/// differ): its output when there is any or it succeeded, else its error.
pub open spec fn spec_untracked_diff_result(o: GitOutputView) -> Result<Seq<char>, Seq<char>> {
    if o.stdout.len() > 0 || o.success {
        Ok(o.stdout)
    } else {
        Err(o.stderr)
    }
}

/// Whether the listing of untracked files named the file.
pub open spec fn spec_is_untracked(o: GitOutputView) -> bool {
    o.success && spec_trim(o.stdout).len() > 0
}

pub open spec fn spec_untracked_args(file: Seq<char>) -> Seq<Seq<char>> {
    seq!["ls-files"@, "--others"@, "--exclude-standard"@, "--"@, file]
}

pub open spec fn spec_untracked_diff_args(file: Seq<char>) -> Seq<Seq<char>> {
    seq!["diff"@, "--no-ext-diff"@, "--no-color"@, "--no-index"@, "--"@, "/dev/null"@, file]
}

/// Where the diff of one file stands: which command's output is awaited.
#[derive(Debug, Clone, Copy, PartialEq, Eq, Structural)]
pub enum WorkingDiffStage {
    /// The worktree diff of the file.
    Worktree,
    /// The listing that tells whether the file is untracked.
    Listing,
    /// The diff that shows an untracked file whole.
    WholeFile,
    /// The staged diff of the file.
    Staged,
}

/// The next thing to do for the diff of one file.
pub enum WorkingDiffStep {
    /// Run `git` with `args` and hand its output back at `stage`.
    Run { stage: WorkingDiffStage, args: Vec<String> },
    /// The diff, or the error that ends it.
    Done(Result<String, String>),
}

pub enum WorkingDiffStepView {
    Run { stage: WorkingDiffStage, args: Seq<Seq<char>> },
    Done(Result<Seq<char>, Seq<char>>),
}

impl View for WorkingDiffStep {
    type V = WorkingDiffStepView;

    open spec fn view(&self) -> WorkingDiffStepView {
        match self {
            WorkingDiffStep::Run { stage, args } => WorkingDiffStepView::Run {
                stage: *stage,
                args: strings_view(args@),
            },
            WorkingDiffStep::Done(Ok(t)) => WorkingDiffStepView::Done(Ok(t@)),
            WorkingDiffStep::Done(Err(e)) => WorkingDiffStepView::Done(Err(e@)),
        }
    }
}

/// One step of the diff of `file`: the worktree diff decides unless it
/// failed or is blank (an error or a non-blank diff is the answer); then
/// the listing tells whether the file is untracked; an untracked file is
/// shown whole, any other by its staged diff.
pub open spec fn spec_working_diff_step(file: Seq<char>, stage: WorkingDiffStage, o: GitOutputView) -> WorkingDiffStepView {
    match stage {
        WorkingDiffStage::Worktree => if !o.success {
            WorkingDiffStepView::Done(Err(o.stderr))
        } else if spec_trim(o.stdout).len() > 0 {
            WorkingDiffStepView::Done(Ok(o.stdout))
        } else {
            WorkingDiffStepView::Run { stage: WorkingDiffStage::Listing, args: spec_untracked_args(file) }
        },
        WorkingDiffStage::Listing => if spec_is_untracked(o) {
            WorkingDiffStepView::Run {
                stage: WorkingDiffStage::WholeFile,
                args: spec_untracked_diff_args(file),
            }
        } else {
            WorkingDiffStepView::Run {
                stage: WorkingDiffStage::Staged,
                args: spec_diff_args(Some(file), true),
            }
        },
        WorkingDiffStage::WholeFile => WorkingDiffStepView::Done(spec_untracked_diff_result(o)),
        WorkingDiffStage::Staged => WorkingDiffStepView::Done(spec_diff_result(o)),
    }
}

/// The result of the diff of `file` when the commands it asks for give, in
/// turn, `first`, `second` and `third`.
pub open spec fn spec_working_diff_run(
    file: Seq<char>,
    first: GitOutputView,
    second: GitOutputView,
    third: GitOutputView,
) -> Result<Seq<char>, Seq<char>> {
    match spec_working_diff_step(file, WorkingDiffStage::Worktree, first) {
        WorkingDiffStepView::Done(x) => x,
        WorkingDiffStepView::Run { stage: s2, .. } => match spec_working_diff_step(file, s2, second) {
            WorkingDiffStepView::Done(x) => x,
            WorkingDiffStepView::Run { stage: s3, .. } => match spec_working_diff_step(file, s3, third) {
                WorkingDiffStepView::Done(x) => x,
                WorkingDiffStepView::Run { .. } => Err(Seq::empty()),
            },
        },
    }
}

/// The diff of a file prefers the worktree: a failed worktree diff is the
/// error, a non-blank one the answer; a blank one leads to the listing of
/// untracked files, and then to the whole file when it is untracked (its
/// content as added lines) or else to the staged diff, whose result ends
/// it. No more than three commands are run.
pub proof fn law_working_diff_fallback(file: Seq<char>, first: GitOutputView, second: GitOutputView, third: GitOutputView)
    ensures
        !first.success ==> spec_working_diff_run(file, first, second, third) == Err::<Seq<char>, Seq<char>>(first.stderr),
        first.success && spec_trim(first.stdout).len() > 0 ==> spec_working_diff_run(file, first, second, third)
            == Ok::<Seq<char>, Seq<char>>(first.stdout),
        first.success && spec_trim(first.stdout).len() == 0 ==> spec_working_diff_step(
            file,
            WorkingDiffStage::Worktree,
            first,
        ) == (WorkingDiffStepView::Run { stage: WorkingDiffStage::Listing, args: spec_untracked_args(file) }),
        first.success && spec_trim(first.stdout).len() == 0 && spec_is_untracked(second) ==> spec_working_diff_run(
            file,
            first,
            second,
            third,
        ) == spec_untracked_diff_result(third),
        first.success && spec_trim(first.stdout).len() == 0 && !spec_is_untracked(second) ==> spec_working_diff_run(
            file,
            first,
            second,
            third,
        ) == spec_diff_result(third),
{
}

/// The next thing to do when discarding a file's changes.
pub enum RestoreStep {
    /// Run `git` with these arguments (the file was not tracked: it is
    /// removed) and hand the outcome to `restore_finish`.
    Clean(Vec<String>),
    /// Done: the tracked file was restored.
    Restored,
}

impl GitWorkspaceService {
    /// The checkout holding `git rev-parse --path-format=absolute
    /// --git-common-dir`'s directory (the primary checkout even for a linked
    /// worktree); `None` outside a repository.
    pub fn primary_repo_root(out: &GitOutput) -> (r: Option<String>)
        ensures
            !out.success ==> r is None,
            r matches Some(p) ==> spec_starts_with(spec_trim(out.stdout@), p@),
            out.success && simple_parent(spec_trim(out.stdout@)) is Some ==> (r matches Some(p) && p@
                == simple_parent(spec_trim(out.stdout@))->0),
    {
        if !out.success {
            return None;
        }
        let dir = crate::text::trim_str(out.stdout.as_str());
        path_parent(dir.as_str())
    }

    /// `git rev-parse --show-toplevel`'s directory; `None` outside a repository.
    pub fn repo_root(out: &GitOutput) -> (r: Option<String>)
        ensures
            match r {
                Some(p) => out.success && p@ == spec_trim(out.stdout@),
                None => !out.success,
            },
    {
        if out.success {
            Some(crate::text::trim_str(out.stdout.as_str()))
        } else {
            None
        }
    }

    /// Working-copy changes from `git status --porcelain=v1 -z`, one per path.
    pub fn changes(out: &GitOutput) -> (r: Result<Vec<FileChange>, String>)
        requires
            out.success ==> spec_parse_porcelain(out.stdout@) is Some,
        ensures
            match r {
                Ok(rows) => out.success && (spec_parse_porcelain(out.stdout@) matches Some(Ok(p))
                    && changes_view(rows@) == spec_merge_working_copy(p)),
                Err(e) => (!out.success && e@ == out.stderr@) || (out.success
                    && spec_parse_porcelain(out.stdout@) == Some(
                    Err::<Seq<FileChangeView>, ()>(()),
                ) && e@ == invalid_status_message()),
            },
    {
        if !out.success {
            return Err(out.stderr.clone());
        }
        match parse_porcelain_z(out.stdout.as_str()) {
            Ok(rows) => Ok(merge_working_copy(rows)),
            Err(e) => Err(e),
        }
    }

    /// Arguments of `git diff` for one file (or all) of the worktree or index.
    pub fn diff_args(file: Option<&str>, staged: bool) -> (r: Vec<String>)
        ensures
            strings_view(r@) == spec_diff_args(
                match file {
                    Some(f) => Some(f@),
                    None => None,
                },
                staged,
            ),
    {
        let mut args = argv(&["diff", "--no-ext-diff", "--no-color"]);
        let ghost a0 = strings_view(args@);
        if staged {
            let c = owned("--cached");
            args.push(c);
        }
        let ghost a1 = strings_view(args@);
        assert(a1 =~= a0 + (if staged {
            seq!["--cached"@]
        } else {
            Seq::empty()
        }));
        let r = match file {
            Some(f) => with_path(args, f),
            None => args,
        };
        assert(strings_view(r@) =~= a1 + match file {
            Some(f) => seq!["--"@, f@],
            None => Seq::empty(),
        });
        r
    }

    /// A diff command's text, or its error text.
    pub fn diff(out: &GitOutput) -> (r: Result<String, String>)
        ensures
            match r {
                Ok(t) => out.success && t@ == out.stdout@,
                Err(e) => !out.success && e@ == out.stderr@,
            },
    {
        if out.success {
            Ok(out.stdout.clone())
        } else {
            Err(out.stderr.clone())
        }
    }

    /// The worktree diff decides unless it failed or is blank: then it is the
    /// answer; `None` asks for the next source: the whole file when it is
    /// untracked (see `is_untracked`), else the staged diff.
    pub fn working_diff(worktree: Result<String, String>) -> (r: Option<Result<String, String>>)
        ensures
            match worktree {
                Err(e) => r == Some(Err::<String, String>(e)),
                Ok(t) => if spec_trim(t@).len() > 0 {
                    r == Some(Ok::<String, String>(t))
                } else {
                    r is None
                },
            },
    {
        match worktree {
            Err(e) => Some(Err(e)),
            Ok(t) => {
                if trim_vec(&chars_of(t.as_str())).len() > 0 {
                    Some(Ok(t))
                } else {
                    None
                }
            },
        }
    }

    /// Arguments of `git ls-files` that list `file` when it is untracked
    /// and not ignored.
    pub fn untracked_args(file: &str) -> (r: Vec<String>)
        ensures
            strings_view(r@) == seq!["ls-files"@, "--others"@, "--exclude-standard"@, "--"@, file@],
    {
        let args = argv(&["ls-files", "--others", "--exclude-standard"]);
        assert(strings_view(args@) =~= seq!["ls-files"@, "--others"@, "--exclude-standard"@]);
        with_path(args, file)
    }

    /// Whether the `untracked_args` listing named the file.
    pub fn is_untracked(out: &GitOutput) -> (r: bool)
        ensures
            r == (out.success && spec_trim(out.stdout@).len() > 0),
    {
        out.success && trim_vec(&chars_of(out.stdout.as_str())).len() > 0
    }

    /// Arguments of the diff that shows an untracked `file` as wholly added:
    /// `git diff --no-index` against the empty file.
    pub fn untracked_diff_args(file: &str) -> (r: Vec<String>)
        ensures
            strings_view(r@) == seq![
                "diff"@,
                "--no-ext-diff"@,
                "--no-color"@,
                "--no-index"@,
                "--"@,
                "/dev/null"@,
                file@,
            ],
    {
        let mut args = argv(&["diff", "--no-ext-diff", "--no-color", "--no-index", "--", "/dev/null"]);
        let ghost a = strings_view(args@);
        args.push(owned(file));
        assert(strings_view(args@) =~= a.push(file@));
        args
    }

    /// The text of `git diff --no-index`, which exits with 1 when the files
    /// differ: its output when there is any (or when it succeeded), else its
    /// error text.
    pub fn untracked_diff(out: &GitOutput) -> (r: Result<String, String>)
        ensures
            match r {
                Ok(t) => t@ == out.stdout@ && (out.stdout@.len() > 0 || out.success),
                Err(e) => out.stdout@.len() == 0 && !out.success && e@ == out.stderr@,
            },
    {
        if out.stdout.as_str().unicode_len() > 0 || out.success {
            Ok(out.stdout.clone())
        } else {
            Err(out.stderr.clone())
        }
    }

    /// The first step of the diff of `file`: its worktree diff.
    pub fn working_diff_begin(file: &str) -> (r: WorkingDiffStep)
        ensures
            r@ == (WorkingDiffStepView::Run {
                stage: WorkingDiffStage::Worktree,
                args: spec_diff_args(Some(file@), false),
            }),
    {
        WorkingDiffStep::Run { stage: WorkingDiffStage::Worktree, args: Self::diff_args(Some(file), false) }
    }

    /// The step after the command awaited at `stage` gave `out`.
    pub fn working_diff_step(file: &str, stage: WorkingDiffStage, out: &GitOutput) -> (r: WorkingDiffStep)
        ensures
            r@ == spec_working_diff_step(file@, stage, out@),
    {
        match stage {
            WorkingDiffStage::Worktree => match Self::working_diff(Self::diff(out)) {
                Some(done) => WorkingDiffStep::Done(done),
                None => WorkingDiffStep::Run {
                    stage: WorkingDiffStage::Listing,
                    args: Self::untracked_args(file),
                },
            },
            WorkingDiffStage::Listing => if Self::is_untracked(out) {
                WorkingDiffStep::Run {
                    stage: WorkingDiffStage::WholeFile,
                    args: Self::untracked_diff_args(file),
                }
            } else {
                WorkingDiffStep::Run { stage: WorkingDiffStage::Staged, args: Self::diff_args(Some(file), true) }
            },
            WorkingDiffStage::WholeFile => WorkingDiffStep::Done(Self::untracked_diff(out)),
            WorkingDiffStage::Staged => WorkingDiffStep::Done(Self::diff(out)),
        }
    }

    /// After `restore --worktree --staged` (its output, or the error that
    /// kept it from running): done when it worked, else the file is taken
    /// for untracked and `clean -f` is next.
    pub fn restore_step(file: &str, restore: &Result<GitOutput, String>) -> (r: RestoreStep)
        ensures
            (restore matches Ok(o) && o.success) ==> r is Restored,
            !(restore matches Ok(o) && o.success) ==> (r matches RestoreStep::Clean(args) && strings_view(
                args@,
            ) == seq!["clean"@, "-f"@, "--"@, file@]),
    {
        let ok = match restore {
            Ok(o) => o.success,
            Err(_) => false,
        };
        if ok {
            RestoreStep::Restored
        } else {
            let (_, clean) = Self::restore_file(file);
            RestoreStep::Clean(clean)
        }
    }

    /// The outcome of `clean -f` (its output, or the error that kept it from
    /// running).
    pub fn restore_finish(clean: Result<GitOutput, String>) -> (r: Result<(), String>)
        ensures
            match clean {
                Err(e) => r == Err::<(), String>(e),
                Ok(o) => if o.success {
                    r is Ok
                } else {
                    r matches Err(e) && e@ == o.stderr@
                },
            },
    {
        match clean {
            Err(e) => Err(e),
            Ok(o) => git_write(&o),
        }
    }

    /// The directory of a task's worktree, `short` under `parent`, and its
    /// branch.
    pub fn worktree_at(parent: &str, short: &str, branch: String) -> (r: Worktree)
        ensures
            r.branch == branch,
            plain_component(short@) ==> pushed(parent@, short@, r.path@),
    {
        Worktree { path: path_join(parent, short), branch }
    }

    /// Arguments of `git show-ref` that tell whether `branch` exists.
    pub fn branch_exists_args(branch: &str) -> (r: Vec<String>)
        ensures
            strings_view(r@) == seq!["show-ref"@, "--verify"@, "--quiet"@, "refs/heads/"@ + branch@],
    {
        let mut args = argv(&["show-ref", "--verify", "--quiet"]);
        let ghost a = strings_view(args@);
        assert(a =~= seq!["show-ref"@, "--verify"@, "--quiet"@]);
        args.push(crate::text::concat("refs/heads/", branch));
        assert(strings_view(args@) =~= a.push("refs/heads/"@ + branch@));
        args
    }

    /// Arguments of `git worktree add` making the branch `branch` at `HEAD`
    /// in the directory `path` (long paths allowed).
    pub fn worktree_add_args(branch: &str, path: &str) -> (r: Vec<String>)
        ensures
            strings_view(r@) == seq![
                "-c"@,
                "core.longpaths=true"@,
                "worktree"@,
                "add"@,
                "-b"@,
                branch@,
                path@,
                "HEAD"@,
            ],
    {
        let mut args = argv(&["-c", "core.longpaths=true", "worktree", "add", "-b"]);
        let ghost a = strings_view(args@);
        assert(a =~= seq!["-c"@, "core.longpaths=true"@, "worktree"@, "add"@, "-b"@]);
        args.push(owned(branch));
        args.push(owned(path));
        args.push(owned("HEAD"));
        assert(strings_view(args@) =~= a.push(branch@).push(path@).push("HEAD"@));
        args
    }

    /// The branch checked out (`(detached)` when none) from `git branch --show-current`.
    pub fn current_branch(out: &GitOutput) -> (r: Result<String, String>)
        ensures
            match r {
                Ok(b) => out.success && b@ == if spec_trim(out.stdout@).len() == 0 {
                    "(detached)"@
                } else {
                    spec_trim(out.stdout@)
                },
                Err(e) => !out.success && e@ == out.stderr@,
            },
    {
        if !out.success {
            return Err(out.stderr.clone());
        }
        let name = crate::text::trim_str(out.stdout.as_str());
        if name.as_str().is_empty() {
            Ok(owned("(detached)"))
        } else {
            Ok(name)
        }
    }

    /// The commands committing everything with a message: `add -A`, then
    /// `commit -m <trimmed message>` (each must succeed); refused for a blank
    /// message.
    pub fn commit_all(message: &str) -> (r: Result<Vec<Vec<String>>, String>)
        ensures
            match r {
                Ok(cmds) => spec_trim(message@).len() > 0 && cmds@.len() == 2 && strings_view(
                    cmds@[0]@,
                ) == seq!["add"@, "-A"@] && strings_view(cmds@[1]@) == seq![
                    "commit"@,
                    "-m"@,
                    spec_trim(message@),
                ],
                Err(e) => spec_trim(message@).len() == 0 && e@ == "提交说明不能为空"@,
            },
    {
        let msg = crate::text::trim_str(message);
        if msg.as_str().is_empty() {
            return Err(owned("提交说明不能为空"));
        }
        let add = argv(&["add", "-A"]);
        let mut commit = argv(&["commit", "-m"]);
        let ghost c0 = commit@;
        let ghost m = msg@;
        commit.push(msg);
        assert(strings_view(commit@) =~= strings_view(c0).push(m));
        let mut cmds: Vec<Vec<String>> = Vec::new();
        cmds.push(add);
        cmds.push(commit);
        Ok(cmds)
    }

    /// Discarding a file's changes: `restore --worktree --staged -- <file>`
    /// for a tracked file, and when that fails `clean -f -- <file>`.
    pub fn restore_file(file: &str) -> (r: (Vec<String>, Vec<String>))
        ensures
            strings_view(r.0@) == seq!["restore"@, "--worktree"@, "--staged"@, "--"@, file@],
            strings_view(r.1@) == seq!["clean"@, "-f"@, "--"@, file@],
    {
        let a = with_path(argv(&["restore", "--worktree", "--staged"]), file);
        let b = with_path(argv(&["clean", "-f"]), file);
        (a, b)
    }

    /// Arguments of `git log` listing up to `limit` (at least one) commits.
    pub fn log_args(limit: usize) -> (r: Vec<String>)
        ensures
            strings_view(r@) == seq![
                "log"@,
                "-n"@ + spec_decimal(if limit < 1 { 1 } else { limit as nat }),
                "--pretty=format:%h\t%s"@,
            ],
    {
        let n: u64 = if limit < 1 {
            1
        } else {
            limit as u64
        };
        let count = crate::text::concat("-n", decimal(n).as_str());
        let mut args = argv(&["log"]);
        let ghost a0 = args@;
        let ghost c = count@;
        args.push(count);
        let f = owned("--pretty=format:%h\t%s");
        let ghost fv = f@;
        args.push(f);
        assert(strings_view(args@) =~= strings_view(a0).push(c).push(fv));
        args
    }

    /// Hash and subject of each listed commit; a repository without commits
    /// lists none.
    pub fn log_oneline(out: &GitOutput) -> (r: Result<Vec<(String, String)>, String>)
        ensures
            match r {
                Ok(v) => if out.success {
                    v@.len() == spec_log_entries(spec_lines(out.stdout@)).len() && forall|i: int|
                        0 <= i < v@.len() ==> ((#[trigger] v@[i]).0@, v@[i].1@) == spec_log_entries(
                            spec_lines(out.stdout@),
                        )[i]
                } else {
                    is_empty_history_error(out.stderr@) && v@.len() == 0
                },
                Err(e) => !out.success && !is_empty_history_error(out.stderr@) && e@
                    == out.stderr@,
            },
    {
        if !out.success {
            let err = chars_of(out.stderr.as_str());
            if contains_str(&err, "does not have any commits") || contains_str(
                &err,
                "unknown revision",
            ) || contains_str(&err, "bad default revision") {
                return Ok(Vec::new());
            }
            return Err(out.stderr.clone());
        }
        let ls = lines_of(&chars_of(out.stdout.as_str()));
        let ghost sl = spec_lines(out.stdout@);
        let mut v: Vec<(String, String)> = Vec::new();
        let mut i: usize = 0;
        assert(sl.subrange(0, 0) =~= Seq::<Seq<char>>::empty());
        while i < ls.len()
            invariant
                i <= ls.len(),
                ls@.len() == sl.len(),
                sl == spec_lines(out.stdout@),
                forall|k: int| 0 <= k < ls@.len() ==> (#[trigger] ls@[k])@ == sl[k],
                v@.len() == spec_log_entries(sl.subrange(0, i as int)).len(),
                forall|k: int|
                    0 <= k < v@.len() ==> ((#[trigger] v@[k]).0@, v@[k].1@) == spec_log_entries(
                        sl.subrange(0, i as int),
                    )[k],
            decreases ls.len() - i,
        {
            let line = &ls[i];
            assert(sl.subrange(0, i + 1).drop_last() =~= sl.subrange(0, i as int));
            assert(sl.subrange(0, i + 1).last() == line@);
            let parts = split_chars(line, '\t');
            proof {
                lemma_split_first_piece(line@, '\t');
            }
            if parts.len() >= 2 {
                let hash = copy_chars(&parts[0]);
                let subject = slice_chars(line, hash.len() + 1, line.len());
                v.push((string_of(&hash), string_of(&subject)));
            }
            i = i + 1;
        }
        assert(sl.subrange(0, ls.len() as int) =~= sl);
        Ok(v)
    }

    /// Arguments of the three commands `show_commit` reads.
    pub fn show_commit_args(rev: &str) -> (r: (Vec<String>, Vec<String>, Vec<String>))
        ensures
            strings_view(r.0@) == seq!["log"@, "-1"@, "--pretty=format:%h%n%an <%ae>%n%ci%n%s%n%n%b"@, rev@],
            strings_view(r.1@) == seq!["diff-tree"@, "--no-commit-id"@, "-r"@, "-M"@, "--name-status"@, rev@],
            strings_view(r.2@) == seq!["diff-tree"@, "--no-commit-id"@, "-r"@, "-M"@, "--numstat"@, rev@],
    {
        let mut a = argv(&["log", "-1", "--pretty=format:%h%n%an <%ae>%n%ci%n%s%n%n%b"]);
        let mut b = argv(&["diff-tree", "--no-commit-id", "-r", "-M", "--name-status"]);
        let mut c = argv(&["diff-tree", "--no-commit-id", "-r", "-M", "--numstat"]);
        let ghost (a0, b0, c0) = (a@, b@, c@);
        let r1 = owned(rev);
        let r2 = owned(rev);
        let r3 = owned(rev);
        a.push(r1);
        b.push(r2);
        c.push(r3);
        assert(strings_view(a@) =~= strings_view(a0).push(rev@));
        assert(strings_view(b@) =~= strings_view(b0).push(rev@));
        assert(strings_view(c@) =~= strings_view(c0).push(rev@));
        (a, b, c)
    }

    /// Arguments of `git show` for one path of a commit.
    pub fn commit_file_diff_args(rev: &str, file: &str) -> (r: Vec<String>)
        ensures
            strings_view(r@) == seq!["show"@, "--format="@, "--no-color"@, "-p"@, rev@, "--"@, file@],
    {
        let mut a = argv(&["show", "--format=", "--no-color", "-p"]);
        let ghost a0 = a@;
        let rv = owned(rev);
        a.push(rv);
        let ghost a1 = a@;
        assert(strings_view(a1) =~= strings_view(a0).push(rev@));
        let r = with_path(a, file);
        assert(strings_view(r@) =~= seq!["show"@, "--format="@, "--no-color"@, "-p"@, rev@, "--"@, file@]);
        r
    }

    /// A commit's diff for one path, or the error text.
    pub fn commit_file_diff(out: &GitOutput) -> (r: Result<String, String>)
        ensures
            match r {
                Ok(t) => out.success && t@ == out.stdout@,
                Err(e) => !out.success && e@ == out.stderr@,
            },
    {
        Self::diff(out)
    }

    /// Arguments staging one path.
    pub fn stage(file: &str) -> (r: Vec<String>)
        ensures
            strings_view(r@) == seq!["add"@, "--"@, file@],
    {
        with_path(argv(&["add"]), file)
    }

    /// Arguments unstaging one path.
    pub fn unstage(file: &str) -> (r: Vec<String>)
        ensures
            strings_view(r@) == seq!["restore"@, "--staged"@, "--"@, file@],
    {
        with_path(argv(&["restore", "--staged"]), file)
    }
}

} // verus!

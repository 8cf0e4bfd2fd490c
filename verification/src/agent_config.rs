//! The agent's `config.toml`: listing or unlisting a skill file in
//! `[skills].paths`, the rest of the file kept as the user wrote it.
use vstd::prelude::*;

use crate::plugins::{names_skill, names_skill_by_text, portable, retained_skill_entries};
use crate::text::{extend_chars, owned, string_of};
use crate::timeline::opt_view;

verus! {

// ───────────────────────── toml_edit's array ─────────────────────────

#[verifier::external_type_specification]
#[verifier::external_body]
pub struct ExTomlArray(toml_edit::Array);

/// What a TOML array holds: the text of each string entry, `None` for any
/// other value, in order.
pub uninterp spec fn array_entries(a: toml_edit::Array) -> Seq<Option<Seq<char>>>;

/// `Array::new`: an empty array.
#[verifier::external_body]
fn array_new() -> (r: toml_edit::Array)
    ensures
        array_entries(r) == Seq::<Option<Seq<char>>>::empty(),
{
    toml_edit::Array::new()
}

/// `Array::len`: the number of entries.
#[verifier::external_body]
fn array_len(a: &toml_edit::Array) -> (r: usize)
    ensures
        r == array_entries(*a).len(),
{
    a.len()
}

/// `Array::get`, the entry read as text (a string value, as `Value::as_str`
/// reads it): the text of the entry at `i`, `None` when it is not a string.
#[verifier::external_body]
fn array_str_at(a: &toml_edit::Array, i: usize) -> (r: Option<String>)
    requires
        i < array_entries(*a).len(),
    ensures
        opt_view(r) == array_entries(*a)[i as int],
{
    match a.get(i) {
        Some(toml_edit::Value::String(s)) => Some(s.value().clone()),
        _ => None,
    }
}

/// `Array::push` of a text: a new string entry at the end.
#[verifier::external_body]
fn array_push_str(a: &mut toml_edit::Array, s: &str)
    ensures
        array_entries(*final(a)) == array_entries(*old(a)).push(Some(s@)),
{
    a.push(s)
}

/// `Array::push_formatted` of a copy of the entry at `i` of `from`, kept
/// as it was written.
#[verifier::external_body]
fn array_push_copy(a: &mut toml_edit::Array, from: &toml_edit::Array, i: usize)
    requires
        i < array_entries(*from).len(),
    ensures
        array_entries(*final(a)) == array_entries(*old(a)).push(array_entries(*from)[i as int]),
{
    if let Some(v) = from.get(i) {
        a.push_formatted(v.clone())
    }
}

// ───────────────────────── the document ─────────────────────────

/// What `[skills].paths` of a config text holds, read the way it is about to
/// be edited: a missing `[skills]` table or `paths` array counts as empty.
pub enum PathsLookup {
    /// The array (possibly empty).
    Listed(toml_edit::Array),
    /// The text is not TOML; the parser's message.
    Unparsable(String),
    /// `skills` is there but is not a (non-inline) table.
    SkillsNotTable,
    /// `skills.paths` is there but is not an array.
    PathsNotArray,
}

pub enum PathsLookupView {
    Listed(Seq<Option<Seq<char>>>),
    Unparsable(Seq<char>),
    SkillsNotTable,
    PathsNotArray,
}

impl View for PathsLookup {
    type V = PathsLookupView;

    open spec fn view(&self) -> PathsLookupView {
        match self {
            PathsLookup::Listed(a) => PathsLookupView::Listed(array_entries(*a)),
            PathsLookup::Unparsable(e) => PathsLookupView::Unparsable(e@),
            PathsLookup::SkillsNotTable => PathsLookupView::SkillsNotTable,
            PathsLookup::PathsNotArray => PathsLookupView::PathsNotArray,
        }
    }
}

/// What `toml_skill_paths` finds in a config text.
pub uninterp spec fn toml_paths_of(text: Seq<char>) -> PathsLookupView;

/// `[skills].paths` of a config text (`toml_edit`): the text is parsed as a
/// `DocumentMut`, `skills` is taken with `entry(..).or_insert(empty table)`
/// and `as_table_mut`, `paths` with `entry(..).or_insert(empty array)` and
/// `as_array_mut`, and the array is handed out. Stated: the outcome is a
/// function of the text; which texts parse and what they hold is left to
/// the parser.
#[verifier::external_body]
fn toml_skill_paths(text: &str) -> (r: PathsLookup)
    ensures
        r@ == toml_paths_of(text@),
{
    let mut doc = match text.parse::<toml_edit::DocumentMut>() {
        Ok(d) => d,
        Err(e) => return PathsLookup::Unparsable(e.to_string()),
    };
    let skills = doc.entry("skills").or_insert(toml_edit::Item::Table(toml_edit::Table::new()));
    let table = match skills.as_table_mut() {
        Some(t) => t,
        None => return PathsLookup::SkillsNotTable,
    };
    let paths = table.entry("paths").or_insert(toml_edit::value(toml_edit::Array::new()));
    match paths.as_array_mut() {
        Some(a) => PathsLookup::Listed(a.clone()),
        None => PathsLookup::PathsNotArray,
    }
}

/// The config text with `[skills].paths` replaced by `paths` (`toml_edit`):
/// the text is parsed and `skills` and `paths` are reached as in
/// `toml_skill_paths`, the array is replaced and the document printed with
/// `to_string`. Stated: the same steps that `toml_skill_paths` took on the
/// text succeed again, so there is a result whenever it found the array;
/// and the printed text, read back, holds `paths` in `[skills].paths` (a
/// printed document parses to the same values). How the rest of the text
/// is laid out is left to the crate.
#[verifier::external_body]
fn toml_replace_paths(text: &str, paths: toml_edit::Array) -> (r: Option<String>)
    ensures
        r is Some || !(toml_paths_of(text@) is Listed),
        r matches Some(s) ==> toml_paths_of(s@) == PathsLookupView::Listed(array_entries(paths)),
{
    let mut doc = text.parse::<toml_edit::DocumentMut>().ok()?;
    let skills = doc.entry("skills").or_insert(toml_edit::Item::Table(toml_edit::Table::new()));
    let arr = skills.as_table_mut()?.entry("paths").or_insert(toml_edit::value(toml_edit::Array::new()));
    *arr.as_array_mut()? = paths;
    Some(doc.to_string())
}

// ───────────────────────── the rewrite ─────────────────────────

/// Which entries stay when the skill's entries are taken out: every entry
/// that is not text stays, a text entry that names the skill by text goes,
/// and a portable text entry (with a portable `skill`) stays exactly when
/// it does not belong to the skill.
pub open spec fn retained_mask(
    entries: Seq<Option<Seq<char>>>,
    skill: Seq<char>,
    dir: Seq<char>,
    mask: Seq<bool>,
) -> bool {
    &&& mask.len() == entries.len()
    &&& forall|i: int| 0 <= i < entries.len() && entries[i] is None ==> #[trigger] mask[i]
    &&& forall|i: int|
        0 <= i < entries.len() && entries[i] is Some && names_skill_by_text(entries[i]->0, skill, dir)
            ==> !#[trigger] mask[i]
    &&& forall|i: int|
        0 <= i < entries.len() && entries[i] is Some && portable(entries[i]->0) && portable(skill)
            ==> (#[trigger] mask[i] == !names_skill(entries[i]->0, skill, dir))
}

/// The entries whose mark is set, in order.
pub open spec fn kept_entries(entries: Seq<Option<Seq<char>>>, mask: Seq<bool>) -> Seq<Option<Seq<char>>>
    decreases mask.len(),
{
    if mask.len() == 0 || entries.len() == 0 {
        Seq::empty()
    } else if mask.last() {
        kept_entries(entries.drop_last(), mask.drop_last()).push(entries.last())
    } else {
        kept_entries(entries.drop_last(), mask.drop_last())
    }
}

/// `[skills].paths` after the sync: the entries that stay, in order, then
/// the skill when it is enabled.
pub open spec fn synced_entries(
    entries: Seq<Option<Seq<char>>>,
    mask: Seq<bool>,
    skill: Seq<char>,
    enable: bool,
) -> Seq<Option<Seq<char>>> {
    kept_entries(entries, mask) + if enable {
        seq![Some(skill)]
    } else {
        Seq::empty()
    }
}

/// `after` is what `[skills].paths` holds once the skill `skill` (in its
/// directory `dir`) is synced into `entries`.
pub open spec fn synced_from(
    entries: Seq<Option<Seq<char>>>,
    skill: Seq<char>,
    dir: Seq<char>,
    enable: bool,
    after: Seq<Option<Seq<char>>>,
) -> bool {
    exists|mask: Seq<bool>|
        retained_mask(entries, skill, dir, mask) && after == synced_entries(entries, mask, skill, enable)
}

/// The entries of an array, read one by one.
fn entry_texts(a: &toml_edit::Array) -> (r: Vec<Option<String>>)
    ensures
        r.len() == array_entries(*a).len(),
        forall|i: int| 0 <= i < r.len() ==> opt_view(#[trigger] r[i]) == array_entries(*a)[i],
{
    let n = array_len(a);
    let mut out: Vec<Option<String>> = Vec::new();
    let mut i: usize = 0;
    while i < n
        invariant
            i <= n,
            n == array_entries(*a).len(),
            out.len() == i,
            forall|j: int| 0 <= j < i ==> opt_view(#[trigger] out[j]) == array_entries(*a)[j],
        decreases n - i,
    {
        let e = array_str_at(a, i);
        out.push(e);
        i = i + 1;
    }
    out
}

/// A new array of the entries of `from` whose mark is set, in order (text
/// entries as fresh strings, other values as written), then `add` when
/// `append`.
fn rebuilt_paths(from: &toml_edit::Array, keep: &Vec<bool>, add: &str, append: bool) -> (r: toml_edit::Array)
    requires
        keep.len() == array_entries(*from).len(),
    ensures
        array_entries(r) == synced_entries(array_entries(*from), keep@, add@, append),
{
    let ghost es = array_entries(*from);
    let mut out = array_new();
    let mut i: usize = 0;
    while i < keep.len()
        invariant
            i <= keep.len(),
            keep.len() == es.len(),
            es == array_entries(*from),
            array_entries(out) == kept_entries(es.subrange(0, i as int), keep@.subrange(0, i as int)),
        decreases keep.len() - i,
    {
        proof {
            assert(es.subrange(0, i + 1).drop_last() =~= es.subrange(0, i as int));
            assert(keep@.subrange(0, i + 1).drop_last() =~= keep@.subrange(0, i as int));
        }
        if keep[i] {
            match array_str_at(from, i) {
                Some(s) => array_push_str(&mut out, s.as_str()),
                None => array_push_copy(&mut out, from, i),
            }
        }
        i = i + 1;
    }
    assert(es.subrange(0, keep.len() as int) =~= es);
    assert(keep@.subrange(0, keep.len() as int) =~= keep@);
    if append {
        array_push_str(&mut out, add);
    }
    assert(array_entries(out) =~= synced_entries(es, keep@, add@, append));
    out
}

/// What to write into `[skills].paths`: the array with the skill's entries
/// taken out and, when `enable`, the skill listed at the end; or the
/// message for a config that cannot be edited.
pub fn plan_skill_paths(lookup: PathsLookup, enable: bool, skill: &str, dir: &str) -> (r: Result<
    toml_edit::Array,
    String,
>)
    ensures
        lookup@ matches PathsLookupView::Unparsable(e) ==> (r matches Err(m) && m@ == "解析 config.toml 失败："@
            + e),
        lookup@ is SkillsNotTable ==> (r matches Err(m) && m@ == "[skills] 不是表"@),
        lookup@ is PathsNotArray ==> (r matches Err(m) && m@ == "[skills].paths 不是数组"@),
        lookup@ matches PathsLookupView::Listed(es) ==> (r matches Ok(a) && synced_from(
            es,
            skill@,
            dir@,
            enable,
            array_entries(a),
        )),
{
    match lookup {
        PathsLookup::Unparsable(e) => {
            let mut v: Vec<char> = Vec::new();
            extend_chars(&mut v, "解析 config.toml 失败：");
            extend_chars(&mut v, e.as_str());
            Err(string_of(&v))
        },
        PathsLookup::SkillsNotTable => Err(owned("[skills] 不是表")),
        PathsLookup::PathsNotArray => Err(owned("[skills].paths 不是数组")),
        PathsLookup::Listed(a) => {
            let entries = entry_texts(&a);
            let keep = retained_skill_entries(&entries, skill, dir);
            let ghost es = array_entries(a);
            assert(retained_mask(es, skill@, dir@, keep@)) by {
                assert forall|i: int| 0 <= i < es.len() && es[i] is None implies #[trigger] keep@[i] by {
                    assert(opt_view(entries[i]) == es[i]);
                }
                assert forall|i: int|
                    0 <= i < es.len() && es[i] is Some && names_skill_by_text(es[i]->0, skill@, dir@)
                        implies !#[trigger] keep@[i] by {
                    assert(opt_view(entries[i]) == es[i]);
                }
                assert forall|i: int|
                    0 <= i < es.len() && es[i] is Some && portable(es[i]->0) && portable(skill@) implies (
                    #[trigger] keep@[i] == !names_skill(es[i]->0, skill@, dir@)) by {
                    assert(opt_view(entries[i]) == es[i]);
                }
            }
            let out = rebuilt_paths(&a, &keep, skill, enable);
            Ok(out)
        },
    }
}

/// The config text `text` with the skill file `skill` (in its directory
/// named `dir`) taken out of `[skills].paths` and, when `enable`, listed
/// again at the end. A text that does not parse, a `skills` that is not a
/// table and a `paths` that is not an array are refused with a message;
/// otherwise the rewritten text comes back, and read back its
/// `[skills].paths` holds the synced entries.
pub fn sync_skill_paths_text(text: &str, enable: bool, skill: &str, dir: &str) -> (r: Result<
    String,
    String,
>)
    ensures
        toml_paths_of(text@) matches PathsLookupView::Unparsable(e) ==> (r matches Err(m) && m@
            == "解析 config.toml 失败："@ + e),
        toml_paths_of(text@) is SkillsNotTable ==> (r matches Err(m) && m@ == "[skills] 不是表"@),
        toml_paths_of(text@) is PathsNotArray ==> (r matches Err(m) && m@ == "[skills].paths 不是数组"@),
        toml_paths_of(text@) matches PathsLookupView::Listed(es) ==> (r matches Ok(out) && toml_paths_of(
            out@,
        ) matches PathsLookupView::Listed(after) && synced_from(es, skill@, dir@, enable, after)),
{
    let lookup = toml_skill_paths(text);
    let ghost found = lookup@;
    match plan_skill_paths(lookup, enable, skill, dir) {
        Err(m) => Err(m),
        Ok(paths) => {
            let ghost after = array_entries(paths);
            match toml_replace_paths(text, paths) {
                Some(s) => {
                    assert(toml_paths_of(s@) == PathsLookupView::Listed(after));
                    Ok(s)
                },
                None => Err(owned("解析 config.toml 失败：")),
            }
        },
    }
}

// ───────────────────────── laws ─────────────────────────

/// How many times `x` occurs in `s`.
pub open spec fn occurrences(s: Seq<Option<Seq<char>>>, x: Option<Seq<char>>) -> nat
    decreases s.len(),
{
    if s.len() == 0 {
        0
    } else {
        occurrences(s.drop_last(), x) + if s.last() == x {
            1nat
        } else {
            0nat
        }
    }
}

/// No entry that stays names the skill by text.
proof fn lemma_kept_not_named(entries: Seq<Option<Seq<char>>>, mask: Seq<bool>, skill: Seq<char>, dir: Seq<char>)
    requires
        mask.len() == entries.len(),
        forall|i: int|
            0 <= i < entries.len() && entries[i] is Some && names_skill_by_text(entries[i]->0, skill, dir)
                ==> !#[trigger] mask[i],
    ensures
        forall|k: int|
            0 <= k < kept_entries(entries, mask).len() && (#[trigger] kept_entries(entries, mask)[k]) is Some
                ==> !names_skill_by_text(kept_entries(entries, mask)[k]->0, skill, dir),
    decreases mask.len(),
{
    if mask.len() > 0 {
        let e2 = entries.drop_last();
        let m2 = mask.drop_last();
        assert forall|i: int|
            0 <= i < e2.len() && e2[i] is Some && names_skill_by_text(e2[i]->0, skill, dir) implies !#[trigger] m2[i] by {
            assert(e2[i] == entries[i] && m2[i] == mask[i]);
        }
        lemma_kept_not_named(e2, m2, skill, dir);
        let n = entries.len() - 1;
        assert(mask.last() == mask[n] && entries.last() == entries[n]);
    }
}

/// A sequence none of whose entries is `x` holds `x` no times.
proof fn lemma_no_occurrences(s: Seq<Option<Seq<char>>>, x: Option<Seq<char>>)
    requires
        forall|k: int| 0 <= k < s.len() ==> s[k] != x,
    ensures
        occurrences(s, x) == 0,
    decreases s.len(),
{
    if s.len() > 0 {
        lemma_no_occurrences(s.drop_last(), x);
        assert(s.last() == s[s.len() - 1]);
    }
}

/// After the skill is enabled, `[skills].paths` lists it exactly once.
pub proof fn law_enabled_skill_listed_once(
    entries: Seq<Option<Seq<char>>>,
    skill: Seq<char>,
    dir: Seq<char>,
    after: Seq<Option<Seq<char>>>,
)
    requires
        synced_from(entries, skill, dir, true, after),
    ensures
        occurrences(after, Some(skill)) == 1,
{
    let mask = choose|mask: Seq<bool>|
        retained_mask(entries, skill, dir, mask) && after == synced_entries(entries, mask, skill, true);
    let kept = kept_entries(entries, mask);
    lemma_kept_not_named(entries, mask, skill, dir);
    assert forall|k: int| 0 <= k < kept.len() implies kept[k] != Some(skill) by {
        if kept[k] == Some(skill) {
            assert(names_skill_by_text(skill, skill, dir));
        }
    }
    lemma_no_occurrences(kept, Some(skill));
    assert(after.drop_last() =~= kept);
}

/// After the skill is disabled, no entry of `[skills].paths` names it by
/// text: the same path up to slash style, or a path ending in
/// `/<dir>/SKILL.md` or `/<dir>`.
pub proof fn law_disabled_skill_gone(
    entries: Seq<Option<Seq<char>>>,
    skill: Seq<char>,
    dir: Seq<char>,
    after: Seq<Option<Seq<char>>>,
)
    requires
        synced_from(entries, skill, dir, false, after),
    ensures
        forall|k: int|
            0 <= k < after.len() && (#[trigger] after[k]) is Some ==> !names_skill_by_text(after[k]->0, skill, dir),
{
    let mask = choose|mask: Seq<bool>|
        retained_mask(entries, skill, dir, mask) && after == synced_entries(entries, mask, skill, false);
    lemma_kept_not_named(entries, mask, skill, dir);
    assert(after =~= kept_entries(entries, mask));
}

} // verus!

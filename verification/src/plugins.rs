//! What the plugin integrations share: saved plugin preferences, bounded
//! log tails, and paths given as text.
use vstd::prelude::*;

use crate::split::{copy_chars, spec_split};
use crate::text::{
    chars_of, ends_with_vec, eq_vec, extend_chars, replace_char, spec_ends_with, spec_replace_char,
    spec_starts_with, spec_trim_end, string_of, trim_end_vec,
};
use crate::timeline::{lemma_strings_view, strings_view};

verus! {

broadcast use lemma_strings_view;

/// Saved plugin settings.
#[derive(Debug)]
pub struct PluginPrefs {
    pub bevy_enabled: bool,
    pub bevy_project_root: Option<String>,
    pub openmontage_enabled: bool,
    pub openmontage_root: Option<String>,
}

/// The newest `max` lines of a log.
pub open spec fn keep_tail(lines: Seq<Seq<char>>, max: nat) -> Seq<Seq<char>> {
    if lines.len() > max {
        lines.subrange(lines.len() - max, lines.len() as int)
    } else {
        lines
    }
}

/// A log line added to a tail: trailing white space dropped, blank lines
/// ignored, only the newest `max` lines kept.
pub open spec fn spec_push_log(tail: Seq<Seq<char>>, line: Seq<char>, max: nat) -> Seq<Seq<char>> {
    if spec_trim_end(line).len() == 0 {
        tail
    } else {
        keep_tail(tail.push(spec_trim_end(line)), max)
    }
}

/// Add a line to a bounded log tail.
pub fn push_log(tail: &mut Vec<String>, line: String, max: usize)
    ensures
        strings_view(final(tail)@) == spec_push_log(strings_view(old(tail)@), line@, max as nat),
{
    let trimmed = trim_end_vec(&chars_of(line.as_str()));
    if trimmed.len() == 0 {
        return;
    }
    let ghost before = tail@;
    let s = string_of(&trimmed);
    tail.push(s);
    assert(strings_view(tail@) =~= strings_view(before).push(spec_trim_end(line@)));
    if tail.len() > max {
        let drain = tail.len() - max;
        let ghost full = tail@;
        let kept = tail.split_off(drain);
        *tail = kept;
        assert(strings_view(tail@) =~= keep_tail(strings_view(full), max as nat));
    }
}

/// A log tail never grows past its bound, and a line that is not blank
/// ends up as its newest entry, trailing white space dropped.
pub proof fn law_push_log_bounded(tail: Seq<Seq<char>>, line: Seq<char>, max: nat)
    requires
        tail.len() <= max,
    ensures
        spec_push_log(tail, line, max).len() <= max,
        spec_trim_end(line).len() > 0 && max > 0 ==> spec_push_log(tail, line, max).last()
            == spec_trim_end(line),
{
}

/// Whether `\` separates path components here (Windows).
/// `std::path::is_separator('\\')`; platform dependent, nothing stated.
#[verifier::external_body]
pub(crate) fn host_is_windows() -> bool {
    std::path::is_separator('\\')
}

/// `r` is `part` added to `base` as a further path component: directly
/// (when `base` is empty or already ends in a separator, or is a bare drive
/// like `C:`), or after one separator of either style.
pub open spec fn joined(base: Seq<char>, part: Seq<char>, r: Seq<char>) -> bool {
    ||| r == base + part
    ||| r == base + seq!['/'] + part
    ||| r == base + seq!['\\'] + part
}

/// `r` is `part` added to `base` after exactly one separator, of either
/// style.
pub open spec fn sep_joined(base: Seq<char>, part: Seq<char>, r: Seq<char>) -> bool {
    &&& r.len() == base.len() + 1 + part.len()
    &&& r.subrange(0, base.len() as int) == base
    &&& (r[base.len() as int] == '/' || r[base.len() as int] == '\\')
    &&& r.subrange(base.len() + 1int, r.len() as int) == part
}

/// A Windows verbatim path: one that starts with `\\?\`.
pub open spec fn verbatim(p: Seq<char>) -> bool {
    p.len() >= 4 && p[0] == '\\' && p[1] == '\\' && p[2] == '?' && p[3] == '\\'
}

/// A base to which a further component is added after a separator: not
/// empty, not ending in a separator, not a bare drive such as `C:`, and not
/// verbatim.
pub open spec fn separated(base: Seq<char>) -> bool {
    &&& base.len() > 0
    &&& base.last() != '/' && base.last() != '\\'
    &&& !(base.len() == 2 && base[1] == ':')
    &&& !verbatim(base)
}

/// What pushing a plain component `part` onto `base` gives, as far as it is
/// the same on every platform: for a base that is not verbatim, `part` is
/// added directly or after one separator; when `base` needs one, exactly one
/// separator comes first; onto an empty base, `part` alone.
pub open spec fn pushed(base: Seq<char>, part: Seq<char>, r: Seq<char>) -> bool {
    &&& !verbatim(base) ==> joined(base, part, r)
    &&& separated(base) ==> sep_joined(base, part, r)
    &&& base.len() == 0 ==> r == part
}

/// A plain path component: not empty, no separator of either style, no
/// drive colon.
pub open spec fn plain_component(part: Seq<char>) -> bool {
    &&& part.len() > 0
    &&& forall|i: int| 0 <= i < part.len() ==> part[i] != '/' && part[i] != '\\' && part[i] != ':'
}

/// A path with a plain component added, as text (`Path::join`, then
/// `Path::display`). `PathBuf::push` adds the platform's separator unless
/// the base is empty, ends in a separator or is a bare drive, and rebuilds
/// a verbatim (`\\?\`) base component by component; the contract leaves
/// open which separator style is added, what a verbatim base gives, and what
/// a part that is not a plain component gives.
#[verifier::external_body]
pub(crate) fn path_join(base: &str, part: &str) -> (r: String)
    ensures
        pushed(base@, part@, r@) || !plain_component(part@),
{
    std::path::Path::new(base).join(part).display().to_string()
}

/// `r` is `base` followed by three plain components, each pushed in turn.
pub open spec fn joined3(base: Seq<char>, a: Seq<char>, b: Seq<char>, c: Seq<char>, r: Seq<char>) -> bool {
    exists|x: Seq<char>, y: Seq<char>| pushed(base, a, x) && pushed(x, b, y) && pushed(y, c, r)
}

/// `r` is `base` followed by three components, one separator before each.
pub open spec fn sep_joined3(base: Seq<char>, a: Seq<char>, b: Seq<char>, c: Seq<char>, r: Seq<char>) -> bool {
    exists|x: Seq<char>, y: Seq<char>| sep_joined(base, a, x) && sep_joined(x, b, y) && sep_joined(y, c, r)
}

/// A base that takes a separator before each further plain component: it
/// is `separated` and does not start with `\\` (so no push makes it
/// verbatim).
pub open spec fn plain_base(base: Seq<char>) -> bool {
    &&& separated(base)
    &&& !(base.len() >= 2 && base[0] == '\\' && base[1] == '\\')
}

/// A plain component pushed after a separator onto a plain base gives a
/// plain base again.
pub proof fn lemma_plain_base_push(base: Seq<char>, part: Seq<char>, r: Seq<char>)
    requires
        plain_base(base),
        plain_component(part),
        sep_joined(base, part, r),
    ensures
        plain_base(r),
{
    assert(r.last() == part.last()) by {
        assert(r.subrange(base.len() + 1int, r.len() as int)[part.len() - 1] == r[r.len() - 1]);
    }
    assert(part.last() == part[part.len() - 1]);
    if base.len() >= 2 {
        assert(r[0] == r.subrange(0, base.len() as int)[0]);
        assert(r[1] == r.subrange(0, base.len() as int)[1]);
    } else {
        assert(r[0] == r.subrange(0, base.len() as int)[0]);
        assert(base.last() == base[0]);
    }
}

/// `base` followed by the components `a`, `b` and `c`.
pub fn path_join3(base: &str, a: &str, b: &str, c: &str) -> (r: String)
    requires
        plain_component(a@),
        plain_component(b@),
        plain_component(c@),
    ensures
        joined3(base@, a@, b@, c@, r@),
        plain_base(base@) ==> sep_joined3(base@, a@, b@, c@, r@),
{
    let x = path_join(base, a);
    let y = path_join(x.as_str(), b);
    let z = path_join(y.as_str(), c);
    assert(pushed(base@, a@, x@) && pushed(x@, b@, y@) && pushed(y@, c@, z@));
    proof {
        if plain_base(base@) {
            lemma_plain_base_push(base@, a@, x@);
            lemma_plain_base_push(x@, b@, y@);
            assert(sep_joined(base@, a@, x@) && sep_joined(x@, b@, y@) && sep_joined(y@, c@, z@));
        }
    }
    z
}

/// A path that reads the same on every platform: no backslash, no drive
/// colon, and not starting with `//` (a network prefix on Windows). Its
/// separators are the slashes alone.
pub open spec fn portable(p: Seq<char>) -> bool {
    &&& forall|i: int| 0 <= i < p.len() ==> p[i] != '\\' && p[i] != ':'
    &&& !(p.len() >= 2 && p[0] == '/' && p[1] == '/')
}

/// The named components of a portable path: the pieces between slashes,
/// empty pieces and `.` left out.
pub open spec fn path_pieces(p: Seq<char>) -> Seq<Seq<char>> {
    spec_split(p, '/').filter(|c: Seq<char>| c.len() > 0 && c != seq!['.'])
}

/// A relative path that starts with the current directory (`.` or `./..`).
pub open spec fn starts_at_cur_dir(p: Seq<char>) -> bool {
    p == seq!['.'] || (p.len() >= 2 && p[0] == '.' && p[1] == '/')
}

/// Two portable paths with the same components: both rooted or neither,
/// both starting at `.` or neither, and the same named components.
pub open spec fn same_components(a: Seq<char>, b: Seq<char>) -> bool {
    &&& (a.len() > 0 && a[0] == '/') == (b.len() > 0 && b[0] == '/')
    &&& starts_at_cur_dir(a) == starts_at_cur_dir(b)
    &&& path_pieces(a) == path_pieces(b)
}

/// Whether two paths name the same place for `std::path::Path`'s `==`,
/// which compares components (so `a/b`, `a//b` and `a/./b/` are the same).
/// Stated: the same text is the same path; two portable paths are the same
/// exactly when their components are (see `same_components`). For other
/// paths the answer depends on the platform's separators and prefixes and
/// is left unsaid.
#[verifier::external_body]
fn same_path(a: &str, b: &str) -> (r: bool)
    ensures
        r || a@ != b@,
        portable(a@) && portable(b@) ==> (r == same_components(a@, b@)),
{
    std::path::Path::new(a) == std::path::Path::new(b)
}

/// A `[skills].paths` entry that names the skill file `skill`, in its own
/// directory `dir`, judged by text: the same path up to slash style, or any
/// path ending in `/<dir>/SKILL.md` or `/<dir>`.
pub open spec fn names_skill_by_text(entry: Seq<char>, skill: Seq<char>, dir: Seq<char>) -> bool {
    let norm = spec_replace_char(entry, '\\', '/');
    ||| norm == spec_replace_char(skill, '\\', '/')
    ||| spec_ends_with(norm, seq!['/'] + dir + "/SKILL.md"@)
    ||| spec_ends_with(norm, seq!['/'] + dir)
}

/// A `[skills].paths` entry that belongs to the skill: it names the skill
/// by text, or it is the same path as `skill` component by component.
pub open spec fn names_skill(entry: Seq<char>, skill: Seq<char>, dir: Seq<char>) -> bool {
    names_skill_by_text(entry, skill, dir) || same_components(entry, skill)
}

/// Whether a `[skills].paths` entry belongs to the skill `skill` (whose
/// directory is `dir`) and is to be taken out before the skill is listed
/// again: it names the skill by text, or `Path`'s `==` finds it equal to
/// `skill` (see `same_path`). For an entry and a skill that are portable
/// paths this is exactly `names_skill`.
pub fn is_skill_entry(entry: &str, skill: &str, dir: &str) -> (r: bool)
    ensures
        names_skill_by_text(entry@, skill@, dir@) ==> r,
        portable(entry@) && portable(skill@) ==> (r == names_skill(entry@, skill@, dir@)),
{
    let norm = replace_char(&chars_of(entry), '\\', '/');
    let alt = replace_char(&chars_of(skill), '\\', '/');
    let mut tail1: Vec<char> = Vec::new();
    tail1.push('/');
    extend_chars(&mut tail1, dir);
    let mut tail2 = copy_chars(&tail1);
    extend_chars(&mut tail2, "/SKILL.md");
    proof {
        assert(tail1@ =~= seq!['/'] + dir@);
        assert(tail2@ =~= seq!['/'] + dir@ + "/SKILL.md"@);
        if portable(entry@) && portable(skill@) {
            assert(spec_replace_char(entry@, '\\', '/') =~= entry@);
            assert(spec_replace_char(skill@, '\\', '/') =~= skill@);
        }
    }
    eq_vec(&norm, &alt) || same_path(entry, skill) || ends_with_vec(&norm, &tail2) || ends_with_vec(
        &norm,
        &tail1,
    )
}

/// Which entries of `[skills].paths` stay when the entries of one skill are
/// taken out: every entry that is not text stays, every text entry that
/// names the skill by text goes, and a portable text entry (with a portable
/// `skill`) stays exactly when it does not belong to the skill.
pub fn retained_skill_entries(entries: &Vec<Option<String>>, skill: &str, dir: &str) -> (r: Vec<bool>)
    ensures
        r.len() == entries.len(),
        forall|i: int| 0 <= i < entries.len() && entries[i] is None ==> #[trigger] r[i],
        forall|i: int|
            0 <= i < entries.len() && entries[i] is Some && names_skill_by_text(
                entries[i]->0@,
                skill@,
                dir@,
            ) ==> !#[trigger] r[i],
        forall|i: int|
            0 <= i < entries.len() && entries[i] is Some && portable(entries[i]->0@) && portable(
                skill@,
            ) ==> (#[trigger] r[i] == !names_skill(entries[i]->0@, skill@, dir@)),
{
    let mut out: Vec<bool> = Vec::new();
    let mut i: usize = 0;
    while i < entries.len()
        invariant
            i <= entries.len(),
            out.len() == i,
            forall|j: int| 0 <= j < i && entries[j] is None ==> #[trigger] out[j],
            forall|j: int|
                0 <= j < i && entries[j] is Some && names_skill_by_text(entries[j]->0@, skill@, dir@)
                    ==> !#[trigger] out[j],
            forall|j: int|
                0 <= j < i && entries[j] is Some && portable(entries[j]->0@) && portable(skill@) ==> (
                #[trigger] out[j] == !names_skill(entries[j]->0@, skill@, dir@)),
        decreases entries.len() - i,
    {
        let keep = match &entries[i] {
            None => true,
            Some(e) => !is_skill_entry(e.as_str(), skill, dir),
        };
        out.push(keep);
        i = i + 1;
    }
    out
}

} // verus!

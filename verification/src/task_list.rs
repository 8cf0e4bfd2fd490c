//! The sidebar's task list: which tasks a filter shows, how projects are
//! grouped, and how task titles and statuses are shown.
use vstd::prelude::*;

use crate::model::{is_default_task_title, spec_is_default_task_title};
use crate::text::{
    chars_of, contains_str, contains_vec, eq_str, is_ascii_hexdigit, owned, replace_char, spec_contains, str_eq,
    spec_is_ascii_hexdigit, spec_replace_char, spec_trim, string_of, to_lowercase, trim_vec,
    unicode_lowercase,
};

verus! {

/// Where a task is in its life, as far as the task list tells them apart.
#[derive(Debug, Clone, Copy, PartialEq, Eq, Structural)]
pub enum TaskStatus {
    Draft,
    Running,
    WaitingApproval,
    Completed,
    Failed,
    Archived,
}

/// The filter above the task list.
#[derive(Debug, Clone, Copy, PartialEq, Eq, Structural)]
pub enum TaskListFilter {
    All,
    Active,
    WaitingApproval,
    Completed,
    Failed,
    Archived,
}

pub open spec fn filter_label(f: TaskListFilter) -> Seq<char> {
    match f {
        TaskListFilter::All => "全部"@,
        TaskListFilter::Active => "进行中"@,
        TaskListFilter::WaitingApproval => "待审批"@,
        TaskListFilter::Completed => "已完成"@,
        TaskListFilter::Failed => "失败"@,
        TaskListFilter::Archived => "已归档"@,
    }
}

/// Which tasks a filter shows: "all" is every task that is not archived
/// (archived ones have a section of their own); "active" is drafts and
/// running tasks; the others show their one status.
pub open spec fn spec_filter_matches(f: TaskListFilter, s: TaskStatus) -> bool {
    match f {
        TaskListFilter::All => s != TaskStatus::Archived,
        TaskListFilter::Active => s == TaskStatus::Draft || s == TaskStatus::Running,
        TaskListFilter::WaitingApproval => s == TaskStatus::WaitingApproval,
        TaskListFilter::Completed => s == TaskStatus::Completed,
        TaskListFilter::Failed => s == TaskStatus::Failed,
        TaskListFilter::Archived => s == TaskStatus::Archived,
    }
}

impl TaskListFilter {
    pub fn label(self) -> (r: &'static str)
        ensures
            r@ == filter_label(self),
    {
        match self {
            TaskListFilter::All => "全部",
            TaskListFilter::Active => "进行中",
            TaskListFilter::WaitingApproval => "待审批",
            TaskListFilter::Completed => "已完成",
            TaskListFilter::Failed => "失败",
            TaskListFilter::Archived => "已归档",
        }
    }

    pub fn matches(self, status: TaskStatus) -> (r: bool)
        ensures
            r == spec_filter_matches(self, status),
    {
        match self {
            TaskListFilter::All => status != TaskStatus::Archived,
            TaskListFilter::Active => status == TaskStatus::Draft || status == TaskStatus::Running,
            TaskListFilter::WaitingApproval => status == TaskStatus::WaitingApproval,
            TaskListFilter::Completed => status == TaskStatus::Completed,
            TaskListFilter::Failed => status == TaskStatus::Failed,
            TaskListFilter::Archived => status == TaskStatus::Archived,
        }
    }
}

/// `s` without any trailing `c`.
pub open spec fn trim_end_char(s: Seq<char>, c: char) -> Seq<char>
    decreases s.len(),
{
    if s.len() > 0 && s.last() == c {
        trim_end_char(s.drop_last(), c)
    } else {
        s
    }
}

/// The key under which paths are cached and grouped: forward slashes, no
/// trailing slash, lower case.
pub open spec fn spec_path_key(path: Seq<char>) -> Seq<char> {
    unicode_lowercase(trim_end_char(spec_replace_char(path, '\\', '/'), '/'))
}

/// The cache and group key of a path (no disk access).
pub fn normalize_path_key(path: &str) -> (r: String)
    ensures
        r@ == spec_path_key(path@),
{
    let v = replace_char(&chars_of(path), '\\', '/');
    let mut n = v.len();
    assert(v@.subrange(0, n as int) =~= v@);
    while n > 0 && v[n - 1] == '/'
        invariant
            n <= v.len(),
            trim_end_char(v@.subrange(0, n as int), '/') == trim_end_char(v@, '/'),
        decreases n,
    {
        assert(v@.subrange(0, n - 1) =~= v@.subrange(0, n as int).drop_last());
        n = n - 1;
    }
    let mut kept: Vec<char> = Vec::new();
    let mut i: usize = 0;
    while i < n
        invariant
            i <= n <= v.len(),
            kept@ == v@.subrange(0, i as int),
        decreases n - i,
    {
        kept.push(v[i]);
        i = i + 1;
        assert(kept@ =~= v@.subrange(0, i as int));
    }
    assert(trim_end_char(v@.subrange(0, n as int), '/') == v@.subrange(0, n as int));
    let trimmed = string_of(&kept);
    to_lowercase(trimmed.as_str())
}

/// The key a project is grouped under in the sidebar.
pub fn project_group_key(path: &str) -> (r: String)
    ensures
        r@ == spec_path_key(path@),
{
    normalize_path_key(path)
}

/// The project a path belongs to: the primary checkout git reports (for a
/// linked worktree, its main repository), else the repository's top level,
/// else the path itself.
pub fn canonical_project_root(primary: Option<String>, toplevel: Option<String>, path: &str) -> (r:
    String)
    ensures
        r@ == (match primary {
            Some(p) => p@,
            None => match toplevel {
                Some(t) => t@,
                None => path@,
            },
        }),
{
    match primary {
        Some(p) => p,
        None => match toplevel {
            Some(t) => t,
            None => owned(path),
        },
    }
}

/// A title that only says the task has none yet.
pub fn is_placeholder_task_title(title: &str) -> (r: bool)
    ensures
        r == spec_is_default_task_title(title@),
{
    is_default_task_title(title)
}

/// A worktree short id stored as a title: eight to twelve hex digits,
/// blanks around ignored.
pub open spec fn spec_short_id(s: Seq<char>) -> bool {
    let t = spec_trim(s);
    &&& 8 <= t.len() <= 12
    &&& forall|i: int| 0 <= i < t.len() ==> spec_is_ascii_hexdigit(#[trigger] t[i])
}

pub fn looks_like_short_id(s: &str) -> (r: bool)
    ensures
        r == spec_short_id(s@),
{
    let t = trim_vec(&chars_of(s));
    if t.len() < 8 || t.len() > 12 {
        return false;
    }
    let mut i: usize = 0;
    while i < t.len()
        invariant
            i <= t.len(),
            t@ == spec_trim(s@),
            forall|j: int| 0 <= j < i ==> spec_is_ascii_hexdigit(#[trigger] t@[j]),
        decreases t.len() - i,
    {
        if !is_ascii_hexdigit(t[i]) {
            return false;
        }
        i = i + 1;
    }
    true
}

/// How a task title is shown: "untitled" for placeholders and stored short
/// ids, else the trimmed title cut to 36 characters.
pub open spec fn spec_display_title(title: Seq<char>) -> Seq<char> {
    let t = spec_trim(title);
    if spec_is_default_task_title(t) || spec_short_id(t) {
        "未命名对话"@
    } else if t.len() > 36 {
        t.subrange(0, 36)
    } else {
        t
    }
}

pub fn display_task_title(title: &str) -> (r: String)
    ensures
        r@ == spec_display_title(title@),
{
    let t = trim_vec(&chars_of(title));
    let ts = string_of(&t);
    if is_default_task_title(ts.as_str()) || looks_like_short_id(ts.as_str()) {
        return owned("未命名对话");
    }
    let n: usize = if t.len() > 36 { 36 } else { t.len() };
    let mut out: Vec<char> = Vec::new();
    let mut i: usize = 0;
    while i < n
        invariant
            i <= n <= t.len(),
            out@ == t@.subrange(0, i as int),
        decreases n - i,
    {
        out.push(t[i]);
        i = i + 1;
        assert(out@ =~= t@.subrange(0, i as int));
    }
    assert(t@.subrange(0, t.len() as int) =~= t@);
    string_of(&out)
}

/// At most `max` characters; a longer text keeps `max` and gets an ellipsis.
pub open spec fn spec_chip_label(s: Seq<char>, max: nat) -> Seq<char> {
    if s.len() > max {
        s.subrange(0, max as int).push('…')
    } else {
        s
    }
}

pub fn truncate_chip_label(s: &str, max: usize) -> (r: String)
    ensures
        r@ == spec_chip_label(s@, max as nat),
{
    let v = chars_of(s);
    let mut out: Vec<char> = Vec::new();
    let mut i: usize = 0;
    while i < v.len() && i < max
        invariant
            i <= v.len(),
            i <= max,
            v@ == s@,
            out@ == s@.subrange(0, i as int),
        decreases v.len() - i,
    {
        out.push(v[i]);
        i = i + 1;
        assert(out@ =~= s@.subrange(0, i as int));
    }
    if i < v.len() {
        out.push('…');
    } else {
        assert(s@.subrange(0, i as int) =~= s@);
    }
    string_of(&out)
}

/// A tool status in a word: done, running, failed, or as reported.
pub open spec fn spec_short_status(status: Seq<char>) -> Seq<char> {
    if spec_contains(status, "Completed"@) || spec_contains(status, "completed"@) {
        "完成"@
    } else if spec_contains(status, "InProgress"@) || spec_contains(status, "started"@) {
        "运行中"@
    } else if spec_contains(status, "Failed"@) || spec_contains(status, "Error"@) {
        "失败"@
    } else {
        status
    }
}

pub fn short_status<'a>(status: &'a str) -> (r: &'a str)
    ensures
        r@ == spec_short_status(status@),
{
    let v = chars_of(status);
    if contains_str(&v, "Completed") || contains_str(&v, "completed") {
        "完成"
    } else if contains_str(&v, "InProgress") || contains_str(&v, "started") {
        "运行中"
    } else if contains_str(&v, "Failed") || contains_str(&v, "Error") {
        "失败"
    } else {
        status
    }
}

// ───────────────────────── conversation groups ─────────────────────────

/// A task as the sidebar groups it: `root` is the project root its
/// directory resolves to (the caller asks git, see
/// `canonical_project_root`).
#[derive(Debug)]
pub struct TaskRow {
    pub id: String,
    pub title: String,
    pub root: String,
    pub status: TaskStatus,
    /// Started from the top-level "new chat", listed under recent chats
    /// rather than under its project.
    pub from_new_chat: bool,
}

/// One project in the sidebar with its tasks, as indices into the task list.
#[derive(Debug)]
pub struct ConversationGroup {
    pub project_path: String,
    pub is_current: bool,
    pub tasks: Vec<usize>,
    pub archived: Vec<usize>,
}

pub struct GroupView {
    pub project_path: Seq<char>,
    pub is_current: bool,
    pub tasks: Seq<usize>,
    pub archived: Seq<usize>,
}

impl View for ConversationGroup {
    type V = GroupView;

    open spec fn view(&self) -> GroupView {
        GroupView {
            project_path: self.project_path@,
            is_current: self.is_current,
            tasks: self.tasks@,
            archived: self.archived@,
        }
    }
}

pub open spec fn groups_view(gs: Seq<ConversationGroup>) -> Seq<GroupView> {
    Seq::new(gs.len(), |i: int| gs[i]@)
}

/// A task the title search `q` (lower case) lets through: its title or its
/// shown title, lowered, holds `q`.
pub open spec fn task_visible(t: TaskRow, q: Seq<char>) -> bool {
    ||| q.len() == 0
    ||| spec_contains(unicode_lowercase(t.title@), q)
    ||| spec_contains(unicode_lowercase(spec_display_title(t.title@)), q)
}

/// A task listed under the project with key `key`.
pub open spec fn in_group_tasks(t: TaskRow, key: Seq<char>, f: TaskListFilter, q: Seq<char>) -> bool {
    &&& task_visible(t, q)
    &&& spec_path_key(t.root@) == key
    &&& t.status != TaskStatus::Archived
    &&& spec_filter_matches(f, t.status)
    &&& !t.from_new_chat
}

/// A task listed in the archived section of the project with key `key`.
pub open spec fn in_group_archived(t: TaskRow, key: Seq<char>, f: TaskListFilter, q: Seq<char>) -> bool {
    &&& task_visible(t, q)
    &&& spec_path_key(t.root@) == key
    &&& t.status == TaskStatus::Archived
    &&& (f == TaskListFilter::All || f == TaskListFilter::Archived)
}

/// The indices of the tasks listed under a project, in order.
pub open spec fn select_tasks(ts: Seq<TaskRow>, key: Seq<char>, f: TaskListFilter, q: Seq<char>) -> Seq<usize>
    decreases ts.len(),
{
    if ts.len() == 0 {
        Seq::empty()
    } else {
        let prev = select_tasks(ts.drop_last(), key, f, q);
        if in_group_tasks(ts.last(), key, f, q) {
            prev.push((ts.len() - 1) as usize)
        } else {
            prev
        }
    }
}

/// The indices of the archived tasks of a project, in order.
pub open spec fn select_archived(ts: Seq<TaskRow>, key: Seq<char>, f: TaskListFilter, q: Seq<char>) -> Seq<usize>
    decreases ts.len(),
{
    if ts.len() == 0 {
        Seq::empty()
    } else {
        let prev = select_archived(ts.drop_last(), key, f, q);
        if in_group_archived(ts.last(), key, f, q) {
            prev.push((ts.len() - 1) as usize)
        } else {
            prev
        }
    }
}

pub open spec fn has_key(roots: Seq<Seq<char>>, key: Seq<char>) -> bool {
    exists|k: int| 0 <= k < roots.len() && spec_path_key(#[trigger] roots[k]) == key
}

/// The project roots in order of first appearance, one per group key.
pub open spec fn first_roots(paths: Seq<Seq<char>>) -> Seq<Seq<char>>
    decreases paths.len(),
{
    if paths.len() == 0 {
        Seq::empty()
    } else {
        let prev = first_roots(paths.drop_last());
        if has_key(prev, spec_path_key(paths.last())) {
            prev
        } else {
            prev.push(paths.last())
        }
    }
}

/// The roots of the recent projects, then those of the tasks.
pub open spec fn all_roots(recent: Seq<String>, ts: Seq<TaskRow>) -> Seq<Seq<char>> {
    Seq::new(recent.len(), |i: int| recent[i]@) + Seq::new(ts.len(), |i: int| ts[i].root@)
}

/// The first task with the id `id`.
pub open spec fn find_task(ts: Seq<TaskRow>, id: Seq<char>) -> Option<int>
    decreases ts.len(),
{
    if ts.len() == 0 {
        None
    } else {
        match find_task(ts.drop_last(), id) {
            Some(i) => Some(i),
            None => if ts.last().id@ == id {
                Some(ts.len() - 1)
            } else {
                None
            },
        }
    }
}

/// The key of the one project marked current: none while a project is
/// being chosen; the active task's project; else the working directory's.
pub open spec fn current_key(
    awaiting: bool,
    active: Option<Seq<char>>,
    ts: Seq<TaskRow>,
    cwd_root: Option<Seq<char>>,
) -> Option<Seq<char>> {
    if awaiting {
        None
    } else {
        match active {
            Some(id) => match find_task(ts, id) {
                Some(i) => Some(spec_path_key(ts[i].root@)),
                None => None,
            },
            None => match cwd_root {
                Some(r) => Some(spec_path_key(r)),
                None => None,
            },
        }
    }
}

pub open spec fn group_of(
    root: Seq<char>,
    ts: Seq<TaskRow>,
    f: TaskListFilter,
    q: Seq<char>,
    cur: Option<Seq<char>>,
) -> GroupView {
    let key = spec_path_key(root);
    GroupView {
        project_path: root,
        is_current: cur == Some(key),
        tasks: select_tasks(ts, key, f, q),
        archived: select_archived(ts, key, f, q),
    }
}

/// Groups kept: all of them, or only those with something listed while a
/// search or the archive filter is on.
pub open spec fn keep_groups(gs: Seq<GroupView>, only_listed: bool) -> Seq<GroupView>
    decreases gs.len(),
{
    if gs.len() == 0 {
        Seq::empty()
    } else {
        let prev = keep_groups(gs.drop_last(), only_listed);
        let g = gs.last();
        if !only_listed || g.tasks.len() > 0 || g.archived.len() > 0 {
            prev.push(g)
        } else {
            prev
        }
    }
}

/// The sidebar's projects with their tasks, in order of first appearance
/// (recent projects first), each task under the project it resolves to.
pub open spec fn spec_conversation_groups(
    recent: Seq<String>,
    ts: Seq<TaskRow>,
    f: TaskListFilter,
    q: Seq<char>,
    awaiting: bool,
    active: Option<Seq<char>>,
    cwd_root: Option<Seq<char>>,
) -> Seq<GroupView> {
    let roots = first_roots(all_roots(recent, ts));
    let cur = current_key(awaiting, active, ts, cwd_root);
    keep_groups(
        Seq::new(roots.len(), |i: int| group_of(roots[i], ts, f, q, cur)),
        q.len() > 0 || f == TaskListFilter::Archived,
    )
}

fn key_index(keys: &Vec<String>, key: &String) -> (r: Option<usize>)
    ensures
        r matches Some(i) ==> i < keys.len() && keys@[i as int]@ == key@,
        r is None ==> forall|i: int| 0 <= i < keys.len() ==> (#[trigger] keys@[i])@ != key@,
{
    let kv = chars_of(key.as_str());
    let mut i: usize = 0;
    while i < keys.len()
        invariant
            i <= keys.len(),
            kv@ == key@,
            forall|j: int| 0 <= j < i ==> (#[trigger] keys@[j])@ != key@,
        decreases keys.len() - i,
    {
        if eq_str(&kv, keys[i].as_str()) {
            return Some(i);
        }
        i = i + 1;
    }
    None
}

fn push_root(roots: &mut Vec<String>, keys: &mut Vec<String>, path: &String)
    requires
        old(roots)@.len() == old(keys)@.len(),
        forall|k: int| 0 <= k < old(keys)@.len() ==> (#[trigger] old(keys)@[k])@ == spec_path_key(old(roots)@[k]@),
    ensures
        final(roots)@.len() == final(keys)@.len(),
        forall|k: int| 0 <= k < final(keys)@.len() ==> (#[trigger] final(keys)@[k])@ == spec_path_key(final(roots)@[k]@),
        Seq::new(final(roots)@.len(), |i: int| final(roots)@[i]@) == ({
            let prev = Seq::new(old(roots)@.len(), |i: int| old(roots)@[i]@);
            if has_key(prev, spec_path_key(path@)) {
                prev
            } else {
                prev.push(path@)
            }
        }),
{
    let ghost prev = Seq::new(roots@.len(), |i: int| roots@[i]@);
    let key = normalize_path_key(path.as_str());
    match key_index(keys, &key) {
        Some(i) => {
            assert(spec_path_key(prev[i as int]) == spec_path_key(path@));
            assert(has_key(prev, spec_path_key(path@)));
            assert(Seq::new(roots@.len(), |i: int| roots@[i]@) =~= prev);
        },
        None => {
            assert(!has_key(prev, spec_path_key(path@))) by {
                if has_key(prev, spec_path_key(path@)) {
                    let k = choose|k: int| 0 <= k < prev.len() && spec_path_key(#[trigger] prev[k]) == spec_path_key(path@);
                    assert(keys@[k]@ == spec_path_key(roots@[k]@));
                }
            }
            roots.push(path.clone());
            keys.push(key);
            assert(Seq::new(roots@.len(), |i: int| roots@[i]@) =~= prev.push(path@));
        },
    }
}

/// Whether each task passes the title search, and each task's group key.
fn task_facts(tasks: &Vec<TaskRow>, q: &Vec<char>) -> (r: (Vec<bool>, Vec<String>))
    ensures
        r.0.len() == tasks.len(),
        r.1.len() == tasks.len(),
        forall|i: int| 0 <= i < tasks.len() ==> r.0@[i] == task_visible(#[trigger] tasks@[i], q@),
        forall|i: int| 0 <= i < tasks.len() ==> (#[trigger] r.1@[i])@ == spec_path_key(tasks@[i].root@),
{
    let mut vis: Vec<bool> = Vec::new();
    let mut keys: Vec<String> = Vec::new();
    let mut i: usize = 0;
    while i < tasks.len()
        invariant
            i <= tasks.len(),
            vis.len() == i,
            keys.len() == i,
            forall|j: int| 0 <= j < i ==> vis@[j] == task_visible(#[trigger] tasks@[j], q@),
            forall|j: int| 0 <= j < i ==> (#[trigger] keys@[j])@ == spec_path_key(tasks@[j].root@),
        decreases tasks.len() - i,
    {
        let t = &tasks[i];
        let v = if q.len() == 0 {
            true
        } else {
            let lt = to_lowercase(t.title.as_str());
            if contains_vec(&chars_of(lt.as_str()), q) {
                true
            } else {
                let shown = display_task_title(t.title.as_str());
                let ls = to_lowercase(shown.as_str());
                contains_vec(&chars_of(ls.as_str()), q)
            }
        };
        vis.push(v);
        keys.push(normalize_path_key(t.root.as_str()));
        i = i + 1;
    }
    (vis, keys)
}

fn select_for(
    tasks: &Vec<TaskRow>,
    vis: &Vec<bool>,
    keys: &Vec<String>,
    key: &String,
    f: TaskListFilter,
    q: Ghost<Seq<char>>,
) -> (r: (Vec<usize>, Vec<usize>))
    requires
        vis.len() == tasks.len(),
        keys.len() == tasks.len(),
        forall|i: int| 0 <= i < tasks.len() ==> vis@[i] == task_visible(#[trigger] tasks@[i], q@),
        forall|i: int| 0 <= i < tasks.len() ==> (#[trigger] keys@[i])@ == spec_path_key(tasks@[i].root@),
    ensures
        r.0@ == select_tasks(tasks@, key@, f, q@),
        r.1@ == select_archived(tasks@, key@, f, q@),
{
    let kv = chars_of(key.as_str());
    let mut listed: Vec<usize> = Vec::new();
    let mut archived: Vec<usize> = Vec::new();
    let mut i: usize = 0;
    while i < tasks.len()
        invariant
            i <= tasks.len(),
            vis.len() == tasks.len(),
            keys.len() == tasks.len(),
            kv@ == key@,
            forall|j: int| 0 <= j < tasks.len() ==> vis@[j] == task_visible(#[trigger] tasks@[j], q@),
            forall|j: int| 0 <= j < tasks.len() ==> (#[trigger] keys@[j])@ == spec_path_key(tasks@[j].root@),
            listed@ == select_tasks(tasks@.subrange(0, i as int), key@, f, q@),
            archived@ == select_archived(tasks@.subrange(0, i as int), key@, f, q@),
        decreases tasks.len() - i,
    {
        let ghost pre = tasks@.subrange(0, i as int);
        let ghost cur = tasks@.subrange(0, i + 1);
        proof {
            assert(cur.drop_last() =~= pre);
            assert(cur.last() == tasks@[i as int]);
        }
        let t = &tasks[i];
        let same = eq_str(&kv, keys[i].as_str());
        if vis[i] && same {
            if t.status == TaskStatus::Archived {
                if f == TaskListFilter::All || f == TaskListFilter::Archived {
                    archived.push(i);
                }
            } else if f.matches(t.status) && !t.from_new_chat {
                listed.push(i);
            }
        }
        i = i + 1;
    }
    assert(tasks@.subrange(0, tasks.len() as int) =~= tasks@);
    (listed, archived)
}

/// The sidebar's projects and their tasks: one group per project key, in
/// order of first appearance among the recent projects' roots
/// (`recent_roots`) and then the tasks' roots; `title_filter` is the
/// lowered search text; the current project is the active task's, or the
/// working directory's root (`cwd_root`) when no task is active, or none
/// while a project is being chosen.
pub fn conversation_groups(
    recent_roots: &Vec<String>,
    tasks: &Vec<TaskRow>,
    filter: TaskListFilter,
    title_filter: &str,
    awaiting_project_choice: bool,
    active_task_id: Option<&str>,
    cwd_root: Option<&str>,
) -> (r: Vec<ConversationGroup>)
    ensures
        groups_view(r@) == spec_conversation_groups(
            recent_roots@,
            tasks@,
            filter,
            title_filter@,
            awaiting_project_choice,
            match active_task_id {
                Some(a) => Some(a@),
                None => None,
            },
            match cwd_root {
                Some(c) => Some(c@),
                None => None,
            },
        ),
{
    let ghost all = all_roots(recent_roots@, tasks@);
    let mut roots: Vec<String> = Vec::new();
    let mut keys: Vec<String> = Vec::new();
    let mut i: usize = 0;
    while i < recent_roots.len()
        invariant
            i <= recent_roots.len(),
            all == all_roots(recent_roots@, tasks@),
            roots@.len() == keys@.len(),
            forall|k: int| 0 <= k < keys@.len() ==> (#[trigger] keys@[k])@ == spec_path_key(roots@[k]@),
            Seq::new(roots@.len(), |k: int| roots@[k]@) == first_roots(all.subrange(0, i as int)),
        decreases recent_roots.len() - i,
    {
        proof {
            assert(all.subrange(0, i + 1).drop_last() =~= all.subrange(0, i as int));
            assert(all.subrange(0, i + 1).last() == recent_roots@[i as int]@);
        }
        push_root(&mut roots, &mut keys, &recent_roots[i]);
        i = i + 1;
    }
    let n = recent_roots.len();
    let mut j: usize = 0;
    while j < tasks.len()
        invariant
            j <= tasks.len(),
            n == recent_roots.len(),
            all == all_roots(recent_roots@, tasks@),
            roots@.len() == keys@.len(),
            forall|k: int| 0 <= k < keys@.len() ==> (#[trigger] keys@[k])@ == spec_path_key(roots@[k]@),
            Seq::new(roots@.len(), |k: int| roots@[k]@) == first_roots(all.subrange(0, n + j)),
        decreases tasks.len() - j,
    {
        proof {
            assert(all.subrange(0, n + j + 1).drop_last() =~= all.subrange(0, n + j));
            assert(all.subrange(0, n + j + 1).last() == tasks@[j as int].root@);
        }
        push_root(&mut roots, &mut keys, &tasks[j].root);
        j = j + 1;
    }
    proof {
        assert(all.subrange(0, n + tasks.len()) =~= all);
    }
    let ghost rs = first_roots(all);
    let q = chars_of(title_filter);
    let (vis, tkeys) = task_facts(tasks, &q);
    // the current project's key
    let cur: Option<String> = if awaiting_project_choice {
        None
    } else {
        match active_task_id {
            Some(id) => {
                let mut found: Option<usize> = None;
                let mut k: usize = 0;
                while k < tasks.len()
                    invariant
                        k <= tasks.len(),
                        found is None <==> find_task(tasks@.subrange(0, k as int), id@) is None,
                        found matches Some(x) ==> x < k && find_task(tasks@.subrange(0, k as int), id@)
                            == Some(x as int),
                    decreases tasks.len() - k,
                {
                    proof {
                        assert(tasks@.subrange(0, k + 1).drop_last() =~= tasks@.subrange(0, k as int));
                    }
                    if found.is_none() && str_eq(tasks[k].id.as_str(), id) {
                        found = Some(k);
                    }
                    k = k + 1;
                }
                proof {
                    assert(tasks@.subrange(0, tasks.len() as int) =~= tasks@);
                }
                match found {
                    Some(x) => Some(normalize_path_key(tasks[x].root.as_str())),
                    None => None,
                }
            },
            None => match cwd_root {
                Some(c) => Some(normalize_path_key(c)),
                None => None,
            },
        }
    };
    let ghost curk = current_key(
        awaiting_project_choice,
        match active_task_id {
            Some(a) => Some(a@),
            None => None,
        },
        tasks@,
        match cwd_root {
            Some(c) => Some(c@),
            None => None,
        },
    );
    assert(match cur {
        Some(c) => curk == Some(c@),
        None => curk is None,
    });
    let only_listed = q.len() > 0 || filter == TaskListFilter::Archived;
    let ghost gs = Seq::new(rs.len(), |i: int| group_of(rs[i], tasks@, filter, title_filter@, curk));
    let mut out: Vec<ConversationGroup> = Vec::new();
    let mut g: usize = 0;
    while g < roots.len()
        invariant
            g <= roots.len(),
            roots@.len() == keys@.len(),
            rs.len() == roots@.len(),
            forall|k: int| 0 <= k < roots@.len() ==> (#[trigger] roots@[k])@ == rs[k],
            forall|k: int| 0 <= k < keys@.len() ==> (#[trigger] keys@[k])@ == spec_path_key(roots@[k]@),
            vis.len() == tasks.len(),
            tkeys.len() == tasks.len(),
            q@ == title_filter@,
            forall|i: int| 0 <= i < tasks.len() ==> vis@[i] == task_visible(#[trigger] tasks@[i], q@),
            forall|i: int| 0 <= i < tasks.len() ==> (#[trigger] tkeys@[i])@ == spec_path_key(tasks@[i].root@),
            match cur {
                Some(c) => curk == Some(c@),
                None => curk is None,
            },
            only_listed == (title_filter@.len() > 0 || filter == TaskListFilter::Archived),
            gs == Seq::new(rs.len(), |i: int| group_of(rs[i], tasks@, filter, title_filter@, curk)),
            groups_view(out@) == keep_groups(gs.subrange(0, g as int), only_listed),
        decreases roots.len() - g,
    {
        proof {
            assert(gs.subrange(0, g + 1).drop_last() =~= gs.subrange(0, g as int));
            assert(roots@[g as int]@ == rs[g as int]);
        }
        let (listed, archived) = select_for(tasks, &vis, &tkeys, &keys[g], filter, Ghost(q@));
        let is_current = match &cur {
            Some(c) => str_eq(c.as_str(), keys[g].as_str()),
            None => false,
        };
        let ghost before = out@;
        if !only_listed || listed.len() > 0 || archived.len() > 0 {
            out.push(ConversationGroup { project_path: roots[g].clone(), is_current, tasks: listed, archived });
            proof {
                assert(groups_view(out@) =~= groups_view(before).push(gs[g as int]));
            }
        }
        g = g + 1;
    }
    proof {
        assert(gs.subrange(0, roots.len() as int) =~= gs);
    }
    out
}

proof fn lemma_first_roots_distinct(paths: Seq<Seq<char>>)
    ensures
        forall|i: int, j: int|
            0 <= i < j < first_roots(paths).len() ==> spec_path_key(#[trigger] first_roots(paths)[i])
                != spec_path_key(#[trigger] first_roots(paths)[j]),
    decreases paths.len(),
{
    if paths.len() > 0 {
        lemma_first_roots_distinct(paths.drop_last());
        let prev = first_roots(paths.drop_last());
        if !has_key(prev, spec_path_key(paths.last())) {
            let r = prev.push(paths.last());
            assert forall|i: int, j: int| 0 <= i < j < r.len() implies spec_path_key(#[trigger] r[i])
                != spec_path_key(#[trigger] r[j]) by {
                if j < prev.len() {
                    assert(r[i] == prev[i] && r[j] == prev[j]);
                } else {
                    assert(r[i] == prev[i]);
                    assert(r[j] == paths.last());
                }
            }
        }
    }
}

proof fn lemma_select_keys(ts: Seq<TaskRow>, key: Seq<char>, f: TaskListFilter, q: Seq<char>)
    requires
        ts.len() <= usize::MAX,
    ensures
        forall|m: int|
            0 <= m < select_tasks(ts, key, f, q).len() ==> (#[trigger] select_tasks(ts, key, f, q)[m])
                < ts.len() && spec_path_key(ts[select_tasks(ts, key, f, q)[m] as int].root@) == key,
    decreases ts.len(),
{
    if ts.len() > 0 {
        let d = ts.drop_last();
        lemma_select_keys(d, key, f, q);
        let prev = select_tasks(d, key, f, q);
        let sel = select_tasks(ts, key, f, q);
        assert forall|m: int| 0 <= m < sel.len() implies (#[trigger] sel[m]) < ts.len()
            && spec_path_key(ts[sel[m] as int].root@) == key by {
            if m < prev.len() {
                assert(sel[m] == prev[m]);
                assert(ts[prev[m] as int] == d[prev[m] as int]);
            } else {
                assert(sel[m] == ts.len() - 1);
                assert(ts[ts.len() - 1] == ts.last());
            }
        }
    }
}

proof fn lemma_keep_members(gs: Seq<GroupView>, b: bool)
    ensures
        forall|i: int|
            0 <= i < keep_groups(gs, b).len() ==> exists|k: int|
                0 <= k < gs.len() && #[trigger] keep_groups(gs, b)[i] == gs[k],
    decreases gs.len(),
{
    if gs.len() > 0 {
        let d = gs.drop_last();
        lemma_keep_members(d, b);
        let prev = keep_groups(d, b);
        let r = keep_groups(gs, b);
        assert forall|i: int| 0 <= i < r.len() implies exists|k: int|
            0 <= k < gs.len() && #[trigger] r[i] == gs[k] by {
            if i < prev.len() {
                assert(r[i] == prev[i]);
                let k = choose|k: int| 0 <= k < d.len() && prev[i] == d[k];
                assert(d[k] == gs[k]);
            } else {
                assert(r[i] == gs[gs.len() - 1]);
            }
        }
    }
}

pub open spec fn paths_distinct(gs: Seq<GroupView>) -> bool {
    forall|i: int, j: int|
        0 <= i < j < gs.len() ==> spec_path_key((#[trigger] gs[i]).project_path) != spec_path_key(
            (#[trigger] gs[j]).project_path,
        )
}

proof fn lemma_keep_distinct(gs: Seq<GroupView>, b: bool)
    requires
        paths_distinct(gs),
    ensures
        paths_distinct(keep_groups(gs, b)),
    decreases gs.len(),
{
    if gs.len() > 0 {
        let d = gs.drop_last();
        assert(paths_distinct(d)) by {
            assert forall|i: int, j: int| 0 <= i < j < d.len() implies spec_path_key(
                (#[trigger] d[i]).project_path,
            ) != spec_path_key((#[trigger] d[j]).project_path) by {
                assert(d[i] == gs[i] && d[j] == gs[j]);
            }
        }
        lemma_keep_distinct(d, b);
        lemma_keep_members(d, b);
        let prev = keep_groups(d, b);
        let r = keep_groups(gs, b);
        let l = gs.last();
        if r.len() > prev.len() {
            assert forall|i: int, j: int| 0 <= i < j < r.len() implies spec_path_key(
                (#[trigger] r[i]).project_path,
            ) != spec_path_key((#[trigger] r[j]).project_path) by {
                if j < prev.len() {
                    assert(r[i] == prev[i] && r[j] == prev[j]);
                } else {
                    assert(r[i] == prev[i]);
                    assert(r[j] == l);
                    let k = choose|k: int| 0 <= k < d.len() && prev[i] == d[k];
                    assert(d[k] == gs[k]);
                    assert(l == gs[gs.len() - 1]);
                }
            }
        }
    }
}

/// A task is listed under at most one project: two different groups never
/// list the same task, and every task a group lists resolves to that
/// group's project.
pub proof fn law_task_in_one_group(
    recent: Seq<String>,
    ts: Seq<TaskRow>,
    f: TaskListFilter,
    q: Seq<char>,
    awaiting: bool,
    active: Option<Seq<char>>,
    cwd_root: Option<Seq<char>>,
)
    requires
        ts.len() <= usize::MAX,
    ensures
        ({
            let gs = spec_conversation_groups(recent, ts, f, q, awaiting, active, cwd_root);
            &&& forall|g: int, m: int|
                0 <= g < gs.len() && 0 <= m < gs[g].tasks.len() ==> (#[trigger] gs[g].tasks[m]) < ts.len()
                    && spec_path_key(ts[gs[g].tasks[m] as int].root@) == spec_path_key(gs[g].project_path)
            &&& forall|g1: int, g2: int, m1: int, m2: int|
                0 <= g1 < gs.len() && 0 <= g2 < gs.len() && g1 != g2 && 0 <= m1 < gs[g1].tasks.len()
                    && 0 <= m2 < gs[g2].tasks.len() ==> #[trigger] gs[g1].tasks[m1]
                    != #[trigger] gs[g2].tasks[m2]
        }),
{
    let roots = first_roots(all_roots(recent, ts));
    let cur = current_key(awaiting, active, ts, cwd_root);
    let b = q.len() > 0 || f == TaskListFilter::Archived;
    let all = Seq::new(roots.len(), |i: int| group_of(roots[i], ts, f, q, cur));
    let gs = keep_groups(all, b);
    lemma_first_roots_distinct(all_roots(recent, ts));
    assert(paths_distinct(all)) by {
        assert forall|i: int, j: int| 0 <= i < j < all.len() implies spec_path_key(
            (#[trigger] all[i]).project_path,
        ) != spec_path_key((#[trigger] all[j]).project_path) by {
            assert(all[i].project_path == roots[i] && all[j].project_path == roots[j]);
        }
    }
    lemma_keep_distinct(all, b);
    lemma_keep_members(all, b);
    assert forall|g: int, m: int| 0 <= g < gs.len() && 0 <= m < gs[g].tasks.len() implies (
    #[trigger] gs[g].tasks[m]) < ts.len() && spec_path_key(ts[gs[g].tasks[m] as int].root@)
        == spec_path_key(gs[g].project_path) by {
        let k = choose|k: int| 0 <= k < all.len() && gs[g] == all[k];
        lemma_select_keys(ts, spec_path_key(roots[k]), f, q);
    }
    assert forall|g1: int, g2: int, m1: int, m2: int|
        0 <= g1 < gs.len() && 0 <= g2 < gs.len() && g1 != g2 && 0 <= m1 < gs[g1].tasks.len() && 0
            <= m2 < gs[g2].tasks.len() implies #[trigger] gs[g1].tasks[m1] != #[trigger] gs[g2].tasks[m2] by {
        let k1 = choose|k: int| 0 <= k < all.len() && gs[g1] == all[k];
        let k2 = choose|k: int| 0 <= k < all.len() && gs[g2] == all[k];
        lemma_select_keys(ts, spec_path_key(roots[k1]), f, q);
        lemma_select_keys(ts, spec_path_key(roots[k2]), f, q);
        if g1 < g2 {
            assert(spec_path_key(gs[g1].project_path) != spec_path_key(gs[g2].project_path));
        } else {
            assert(spec_path_key(gs[g2].project_path) != spec_path_key(gs[g1].project_path));
        }
    }
}

proof fn lemma_select_increasing(ts: Seq<TaskRow>, key: Seq<char>, f: TaskListFilter, q: Seq<char>)
    requires
        ts.len() <= usize::MAX,
    ensures
        forall|a: int, b: int|
            0 <= a < b < select_tasks(ts, key, f, q).len() ==> (#[trigger] select_tasks(ts, key, f, q)[a])
                < (#[trigger] select_tasks(ts, key, f, q)[b]),
        forall|a: int|
            0 <= a < select_tasks(ts, key, f, q).len() ==> (#[trigger] select_tasks(ts, key, f, q)[a])
                < ts.len(),
    decreases ts.len(),
{
    if ts.len() > 0 {
        let d = ts.drop_last();
        lemma_select_increasing(d, key, f, q);
        let prev = select_tasks(d, key, f, q);
        let sel = select_tasks(ts, key, f, q);
        assert forall|a: int| 0 <= a < sel.len() implies (#[trigger] sel[a]) < ts.len() by {
            if a < prev.len() {
                assert(sel[a] == prev[a]);
            }
        }
        assert forall|a: int, b: int| 0 <= a < b < sel.len() implies (#[trigger] sel[a]) < (#[trigger] sel[b]) by {
            if b < prev.len() {
                assert(sel[a] == prev[a] && sel[b] == prev[b]);
            } else {
                assert(sel[a] == prev[a]);
                assert(sel[b] == ts.len() - 1);
            }
        }
    }
}

/// One project at most is marked current, and each project lists its
/// tasks in the order of the task list (selecting a task never moves it).
pub proof fn law_one_current_group(
    recent: Seq<String>,
    ts: Seq<TaskRow>,
    f: TaskListFilter,
    q: Seq<char>,
    awaiting: bool,
    active: Option<Seq<char>>,
    cwd_root: Option<Seq<char>>,
)
    requires
        ts.len() <= usize::MAX,
    ensures
        ({
            let gs = spec_conversation_groups(recent, ts, f, q, awaiting, active, cwd_root);
            &&& forall|g1: int, g2: int|
                0 <= g1 < g2 < gs.len() && (#[trigger] gs[g1]).is_current ==> !(#[trigger] gs[g2]).is_current
            &&& forall|g: int, a: int, b: int|
                0 <= g < gs.len() && 0 <= a < b < gs[g].tasks.len() ==> (#[trigger] gs[g].tasks[a])
                    < (#[trigger] gs[g].tasks[b])
        }),
{
    let roots = first_roots(all_roots(recent, ts));
    let cur = current_key(awaiting, active, ts, cwd_root);
    let b = q.len() > 0 || f == TaskListFilter::Archived;
    let all = Seq::new(roots.len(), |i: int| group_of(roots[i], ts, f, q, cur));
    let gs = keep_groups(all, b);
    lemma_first_roots_distinct(all_roots(recent, ts));
    assert(paths_distinct(all)) by {
        assert forall|i: int, j: int| 0 <= i < j < all.len() implies spec_path_key(
            (#[trigger] all[i]).project_path,
        ) != spec_path_key((#[trigger] all[j]).project_path) by {
            assert(all[i].project_path == roots[i] && all[j].project_path == roots[j]);
        }
    }
    lemma_keep_distinct(all, b);
    lemma_keep_members(all, b);
    assert forall|g1: int, g2: int| 0 <= g1 < g2 < gs.len() && (#[trigger] gs[g1]).is_current implies !(
    #[trigger] gs[g2]).is_current by {
        let k1 = choose|k: int| 0 <= k < all.len() && gs[g1] == all[k];
        let k2 = choose|k: int| 0 <= k < all.len() && gs[g2] == all[k];
        assert(spec_path_key(gs[g1].project_path) != spec_path_key(gs[g2].project_path));
    }
    assert forall|g: int, a: int, b2: int| 0 <= g < gs.len() && 0 <= a < b2 < gs[g].tasks.len() implies (
    #[trigger] gs[g].tasks[a]) < (#[trigger] gs[g].tasks[b2]) by {
        let k = choose|k: int| 0 <= k < all.len() && gs[g] == all[k];
        lemma_select_increasing(ts, spec_path_key(roots[k]), f, q);
    }
}

proof fn lemma_trim_end_char_push(s: Seq<char>, c: char)
    ensures
        trim_end_char(s.push(c), c) == trim_end_char(s, c),
{
    assert(s.push(c).drop_last() =~= s);
}

/// Slash style and trailing slashes do not change a path's group key.
pub proof fn law_group_key_ignores_slashes(path: Seq<char>)
    ensures
        spec_path_key(path.push('/')) == spec_path_key(path),
        spec_path_key(path.push('\\')) == spec_path_key(path),
        spec_path_key(spec_replace_char(path, '\\', '/')) == spec_path_key(path),
{
    let r = spec_replace_char(path, '\\', '/');
    assert(spec_replace_char(path.push('/'), '\\', '/') =~= r.push('/'));
    assert(spec_replace_char(path.push('\\'), '\\', '/') =~= r.push('/'));
    assert(spec_replace_char(r, '\\', '/') =~= r);
    lemma_trim_end_char_push(r, '/');
}

/// The status a single-status filter stands for (`None` for `All` and
/// `Active`, which cover several).
pub open spec fn filter_status(f: TaskListFilter) -> Option<TaskStatus> {
    match f {
        TaskListFilter::WaitingApproval => Some(TaskStatus::WaitingApproval),
        TaskListFilter::Completed => Some(TaskStatus::Completed),
        TaskListFilter::Failed => Some(TaskStatus::Failed),
        TaskListFilter::Archived => Some(TaskStatus::Archived),
        _ => None,
    }
}

/// Each single-status filter lists exactly the tasks of its own status;
/// `Active` lists the draft and running ones; `All` lists every task but
/// the archived ones. So every status is listed by exactly one filter
/// other than `All`, and a task listed under `All` is listed under exactly
/// one other filter.
pub proof fn law_filters_partition_statuses(f: TaskListFilter, g: TaskListFilter, s: TaskStatus)
    ensures
        filter_status(f) matches Some(t) ==> (spec_filter_matches(f, s) <==> s == t),
        spec_filter_matches(TaskListFilter::Active, s) <==> (s == TaskStatus::Draft || s == TaskStatus::Running),
        spec_filter_matches(TaskListFilter::All, s) <==> s != TaskStatus::Archived,
        f != TaskListFilter::All && g != TaskListFilter::All && f != g && spec_filter_matches(f, s)
            ==> !spec_filter_matches(g, s),
        exists|h: TaskListFilter| h != TaskListFilter::All && #[trigger] spec_filter_matches(h, s),
{
    let h = match s {
        TaskStatus::Draft | TaskStatus::Running => TaskListFilter::Active,
        TaskStatus::WaitingApproval => TaskListFilter::WaitingApproval,
        TaskStatus::Completed => TaskListFilter::Completed,
        TaskStatus::Failed => TaskListFilter::Failed,
        TaskStatus::Archived => TaskListFilter::Archived,
    };
    assert(spec_filter_matches(h, s));
}

} // verus!

//! UI-facing session state: the chat timeline and the reducer that folds
//! agent events into it.
use vstd::prelude::*;

use crate::text::{
    chars_of, eq_str, ends_with_vec, extend_vec, spec_ends_with, spec_is_whitespace,
    spec_starts_with, spec_trim, spec_utf8_len, spec_utf8_width, starts_with_vec, str_eq,
    lemma_utf8_len_push, lemma_utf8_len_prefix_le, utf8_len_at_least,
    string_of, trim_vec, utf8_width, unicode_lowercase, unicode_uppercase, to_lowercase,
    to_uppercase, trim_str, path_file_name, simple_file_name, root_or_empty, owned, spec_contains,
    contains_vec, is_whitespace, spec_all_ascii, spec_ascii_upper_char,
    extend_chars,
};
use crate::i18n::{spec_t, t, Language};
use crate::timeline::{
    items_view, lemma_items_view, lemma_strings_view, opt_view, strings_view, ChatMessage,
    ChatMessageView, PlanCard, PlanCardView, PlanEntryView, RouteCard, Role, MessageSource,
    ThoughtCard, ThoughtCardView, TimelineItem, TimelineItemView, TokenUsage, ToolCard, clone_items,
    ToolCardView,
};

verus! {

broadcast use {lemma_items_view, lemma_strings_view};

// ───────────────────────── stream merging ─────────────────────────

/// Byte length from which a re-delivered chunk or snapshot is recognised.
pub const LONG_CHUNK: usize = 32;

/// What an ACP text update does to the text shown so far: an empty update
/// changes nothing; a long update that the text already ends with is a
/// re-delivery and is dropped; a long text that the update starts with is
/// replaced by the update (a cumulative snapshot); anything else is appended.
pub open spec fn spec_merge_stream(current: Seq<char>, incoming: Seq<char>) -> Seq<char> {
    if incoming.len() == 0 {
        current
    } else if spec_utf8_len(incoming) >= LONG_CHUNK && spec_ends_with(current, incoming) {
        current
    } else if spec_utf8_len(current) >= LONG_CHUNK && spec_starts_with(incoming, current) {
        incoming
    } else {
        current + incoming
    }
}

/// Merge an ACP text update defensively. Normal ACP updates are deltas, but a
/// reconnecting or provider-specific bridge can re-deliver a long chunk or a
/// cumulative snapshot. Avoid rendering either form as repeated paragraphs.
pub fn merge_stream_text(current: &mut String, incoming: &str)
    ensures
        final(current)@ == spec_merge_stream(old(current)@, incoming@),
{
    let inc = chars_of(incoming);
    if inc.len() == 0 {
        return;
    }
    let cur = chars_of(current.as_str());
    if utf8_len_at_least(&inc, LONG_CHUNK) && ends_with_vec(&cur, &inc) {
        return;
    }
    if utf8_len_at_least(&cur, LONG_CHUNK) && starts_with_vec(&inc, &cur) {
        *current = incoming.to_owned();
        return;
    }
    let mut all = cur;
    extend_vec(&mut all, &inc);
    *current = string_of(&all);
}

/// Merging an update whose text the current text already ends with (a long
/// re-delivered chunk) leaves the text as it was.
pub proof fn law_redelivered_chunk_dropped(current: Seq<char>, chunk: Seq<char>)
    requires
        spec_utf8_len(chunk) >= LONG_CHUNK,
        spec_ends_with(current, chunk),
    ensures
        spec_merge_stream(current, chunk) == current,
{
}

/// Merging the same long chunk twice gives the same text as merging it once.
pub proof fn law_merge_long_chunk_idempotent(current: Seq<char>, chunk: Seq<char>)
    requires
        spec_utf8_len(chunk) >= LONG_CHUNK,
    ensures
        spec_merge_stream(spec_merge_stream(current, chunk), chunk) == spec_merge_stream(
            current,
            chunk,
        ),
{
    let m = spec_merge_stream(current, chunk);
    assert(chunk.len() > 0) by {
        if chunk.len() == 0 {
            assert(spec_utf8_len(chunk) == 0);
        }
    }
    assert(spec_ends_with(m, chunk)) by {
        if spec_ends_with(current, chunk) {
        } else if spec_utf8_len(current) >= LONG_CHUNK && spec_starts_with(chunk, current) {
            assert(m == chunk);
            assert(m.subrange(m.len() - chunk.len(), m.len() as int) =~= chunk);
        } else {
            assert(m == current + chunk);
            assert(m.subrange(m.len() - chunk.len(), m.len() as int) =~= chunk);
        }
    }
}

/// A long text followed by a cumulative snapshot that extends it becomes the snapshot.
pub proof fn law_snapshot_replaces(current: Seq<char>, snapshot: Seq<char>)
    requires
        spec_utf8_len(current) >= LONG_CHUNK,
        spec_starts_with(snapshot, current),
        !spec_ends_with(current, snapshot),
    ensures
        spec_merge_stream(current, snapshot) == snapshot,
{
    if snapshot.len() == 0 {
        assert(current.len() == 0);
        assert(spec_utf8_len(current) == 0);
    }
}

/// A merge never loses the text shown so far: the result starts with it or
/// is a snapshot that starts with it.
pub proof fn law_merge_keeps_prefix(current: Seq<char>, incoming: Seq<char>)
    ensures
        spec_starts_with(spec_merge_stream(current, incoming), current),
{
    let m = spec_merge_stream(current, incoming);
    if incoming.len() == 0 || (spec_utf8_len(incoming) >= LONG_CHUNK && spec_ends_with(
        current,
        incoming,
    )) {
        assert(m.subrange(0, current.len() as int) =~= current);
    } else if spec_utf8_len(current) >= LONG_CHUNK && spec_starts_with(incoming, current) {
    } else {
        assert(m.subrange(0, current.len() as int) =~= current);
    }
}

// ───────────────────────── titles ─────────────────────────

pub open spec fn is_line_break(c: char) -> bool {
    c == '\n' || c == '\r'
}

/// Index of the first line break in `s`, or its length.
pub open spec fn line_end(s: Seq<char>) -> nat
    decreases s.len(),
{
    if s.len() == 0 || is_line_break(s[0]) {
        0
    } else {
        1 + line_end(s.drop_first())
    }
}

pub proof fn lemma_line_end(s: Seq<char>, i: int)
    requires
        0 <= i <= s.len(),
        forall|j: int| 0 <= j < i ==> !is_line_break(#[trigger] s[j]),
        i == s.len() || is_line_break(s[i]),
    ensures
        line_end(s) == i,
    decreases i,
{
    if i > 0 {
        assert forall|j: int| 0 <= j < i - 1 implies !is_line_break(#[trigger] s.drop_first()[j]) by {
            assert(s.drop_first()[j] == s[j + 1]);
        }
        lemma_line_end(s.drop_first(), i - 1);
    }
}

/// The first line of `s` cut to `max` characters (with `…` when cut), trimmed.
pub open spec fn spec_truncate_chars(s: Seq<char>, max: nat) -> Seq<char> {
    if s.len() > max && line_end(s) >= max {
        spec_trim(s.subrange(0, max as int).push('…'))
    } else {
        spec_trim(s.subrange(0, line_end(s) as int))
    }
}

/// First line of `s`, cut to `max` characters with an ellipsis, trimmed.
pub fn truncate_chars(s: &str, max: usize) -> (r: String)
    ensures
        r@ == spec_truncate_chars(s@, max as nat),
{
    let v = chars_of(s);
    let mut out: Vec<char> = Vec::new();
    let mut i: usize = 0;
    while i < v.len()
        invariant
            i <= v.len(),
            i <= max,
            v@ == s@,
            out@ == v@.subrange(0, i as int),
            forall|j: int| 0 <= j < i ==> !is_line_break(#[trigger] v@[j]),
        decreases v.len() - i,
    {
        if i >= max {
            proof {
                lemma_line_end_ge(v@, i as int);
            }
            out.push('…');
            return string_of(&trim_vec(&out));
        }
        let ch = v[i];
        if ch == '\n' || ch == '\r' {
            proof {
                lemma_line_end(v@, i as int);
            }
            return string_of(&trim_vec(&out));
        }
        out.push(ch);
        i = i + 1;
        assert(out@ =~= v@.subrange(0, i as int));
    }
    proof {
        lemma_line_end(v@, i as int);
    }
    string_of(&trim_vec(&out))
}

pub proof fn lemma_line_end_ge(s: Seq<char>, i: int)
    requires
        0 <= i <= s.len(),
        forall|j: int| 0 <= j < i ==> !is_line_break(#[trigger] s[j]),
    ensures
        line_end(s) >= i,
    decreases i,
{
    if i > 0 {
        assert forall|j: int| 0 <= j < i - 1 implies !is_line_break(#[trigger] s.drop_first()[j]) by {
            assert(s.drop_first()[j] == s[j + 1]);
        }
        lemma_line_end_ge(s.drop_first(), i - 1);
    }
}

/// Titles that mean "no title yet".
pub open spec fn spec_is_default_task_title(t: Seq<char>) -> bool {
    let x = spec_trim(t);
    ||| x.len() == 0
    ||| x == "新任务"@
    ||| x == "新对话"@
    ||| x == "未命名对话"@
    ||| x == "未命名任务"@
}

/// Whether a title is still a placeholder (blank or one of the default names).
pub fn is_default_task_title(title: &str) -> (r: bool)
    ensures
        r == spec_is_default_task_title(title@),
{
    let t = trim_vec(&chars_of(title));
    t.len() == 0 || eq_str(&t, "新任务") || eq_str(&t, "新对话") || eq_str(&t, "未命名对话")
        || eq_str(&t, "未命名任务")
}

} // verus!

verus! {

// ───────────────────────── session state ─────────────────────────

/// One option offered by a permission request.
#[derive(Debug)]
pub struct PermissionOptionView {
    pub option_id: String,
    pub name: String,
    pub kind: String,
}

#[derive(Debug)]
pub struct PendingPermission {
    pub tool_call_id: String,
    pub title: String,
    pub options: Vec<PermissionOptionView>,
}

/// A model the agent offers.
#[derive(Debug)]
pub struct ModelChoice {
    pub id: String,
    pub name: String,
}

/// An agent mode the agent offers.
#[derive(Debug)]
pub struct ModeChoice {
    pub id: String,
    pub name: String,
}

/// One finished turn as recorded in the usage history.
#[derive(Debug)]
pub struct TurnRecord {
    pub id: String,
    pub session_id: String,
    pub user_text: String,
    pub assistant_text: String,
    pub tool_titles: Vec<String>,
    pub usage_delta: TokenUsage,
}

/// A task (session) listed in the sidebar.
#[derive(Debug)]
pub struct TaskSummary {
    pub session_id: String,
    pub title: String,
}

#[derive(Debug, Clone, Copy, PartialEq, Eq, Structural)]
pub enum UsageTab {
    Charts,
    Models,
    Turns,
}

/// Primary left-nav destination.
#[derive(Debug, Clone, Copy, PartialEq, Eq, Structural)]
pub enum MainNav {
    Chat,
    Unity,
    Scheduled,
    Plugins,
    Sites,
    PullRequests,
}

/// What the agent connection reports. The turn ledger (token accounting)
/// is kept by the caller, which hands the finished turn record in
/// `TurnDone`.
#[derive(Debug)]
pub enum AgentEvent {
    Status(String),
    NeedsLogin { message: String },
    Disconnected,
    Connected {
        session_id: String,
        cwd: String,
        current_model_id: String,
        current_model_name: String,
        models: Vec<ModelChoice>,
        current_mode_id: String,
        modes: Vec<ModeChoice>,
        restored: bool,
    },
    ModelChanged { model_id: String, name: String },
    ModeChanged { mode_id: String },
    AssistantDelta(String),
    ThoughtDelta(String),
    PlanUpdate { entries: Vec<PlanEntryView> },
    ToolStart { id: String, title: String, kind: String, detail: String },
    ToolUpdate { id: String, status: String, kind: String, detail: String },
    PermissionRequest { tool_call_id: String, title: String, options: Vec<PermissionOptionView> },
    TurnDone { record: TurnRecord },
    Error(String),
}

#[derive(Debug)]
pub struct AppModel {
    pub status: String,
    pub session_id: Option<String>,
    pub cwd: Option<String>,
    pub timeline: Vec<TimelineItem>,
    /// Snapshot of live timeline while viewing a historical task.
    pub live_timeline: Vec<TimelineItem>,
    pub pending_permission: Option<PendingPermission>,
    pub busy: bool,
    pub draft: String,
    pub auto_scroll: bool,
    pub connected: bool,
    pub needs_login: bool,
    pub login_message: String,
    pub current_model_id: String,
    pub current_model_name: String,
    pub available_models: Vec<ModelChoice>,
    pub show_model_picker: bool,
    pub current_mode_id: String,
    pub available_modes: Vec<ModeChoice>,
    pub show_user_menu: bool,
    pub show_usage_detail: bool,
    pub show_about: bool,
    pub show_left_sidebar: bool,
    pub show_right_panel: bool,
    pub focus_composer: bool,
    pub main_nav: MainNav,
    /// Local filter for the task list (sidebar search).
    pub task_filter: String,
    pub show_task_search: bool,
    pub usage_tab: UsageTab,
    /// `None` = live current session; `Some` = read-only history view.
    pub viewing_session_id: Option<String>,
    pub task_title: String,
    pub display_name: String,
    /// Recent turns (includes prior sessions).
    pub history_turns: Vec<TurnRecord>,
    /// Expanded turn ids in the usage detail panel.
    pub history_expanded: Vec<String>,
    /// Recent project working directories.
    pub recent_projects: Vec<String>,
}

/// The model's state with strings seen as character sequences.
pub struct ModelView {
    pub status: Seq<char>,
    pub session_id: Option<Seq<char>>,
    pub cwd: Option<Seq<char>>,
    pub timeline: Seq<TimelineItemView>,
    pub live_timeline: Seq<TimelineItemView>,
    pub pending_permission: Option<PendingPermission>,
    pub busy: bool,
    pub draft: Seq<char>,
    pub auto_scroll: bool,
    pub connected: bool,
    pub needs_login: bool,
    pub login_message: Seq<char>,
    pub current_model_id: Seq<char>,
    pub current_model_name: Seq<char>,
    pub available_models: Seq<ModelChoice>,
    pub show_model_picker: bool,
    pub current_mode_id: Seq<char>,
    pub available_modes: Seq<ModeChoice>,
    pub show_user_menu: bool,
    pub show_usage_detail: bool,
    pub show_about: bool,
    pub show_left_sidebar: bool,
    pub show_right_panel: bool,
    pub focus_composer: bool,
    pub main_nav: MainNav,
    pub task_filter: Seq<char>,
    pub show_task_search: bool,
    pub usage_tab: UsageTab,
    pub viewing_session_id: Option<Seq<char>>,
    pub task_title: Seq<char>,
    pub display_name: Seq<char>,
    pub history_turns: Seq<TurnRecord>,
    pub history_expanded: Seq<Seq<char>>,
    pub recent_projects: Seq<Seq<char>>,
}

impl View for AppModel {
    type V = ModelView;

    open spec fn view(&self) -> ModelView {
        ModelView {
            status: self.status@,
            session_id: opt_view(self.session_id),
            cwd: opt_view(self.cwd),
            timeline: items_view(self.timeline@),
            live_timeline: items_view(self.live_timeline@),
            pending_permission: self.pending_permission,
            busy: self.busy,
            draft: self.draft@,
            auto_scroll: self.auto_scroll,
            connected: self.connected,
            needs_login: self.needs_login,
            login_message: self.login_message@,
            current_model_id: self.current_model_id@,
            current_model_name: self.current_model_name@,
            available_models: self.available_models@,
            show_model_picker: self.show_model_picker,
            current_mode_id: self.current_mode_id@,
            available_modes: self.available_modes@,
            show_user_menu: self.show_user_menu,
            show_usage_detail: self.show_usage_detail,
            show_about: self.show_about,
            show_left_sidebar: self.show_left_sidebar,
            show_right_panel: self.show_right_panel,
            focus_composer: self.focus_composer,
            main_nav: self.main_nav,
            task_filter: self.task_filter@,
            show_task_search: self.show_task_search,
            usage_tab: self.usage_tab,
            viewing_session_id: opt_view(self.viewing_session_id),
            task_title: self.task_title@,
            display_name: self.display_name@,
            history_turns: self.history_turns@,
            history_expanded: strings_view(self.history_expanded@),
            recent_projects: strings_view(self.recent_projects@),
        }
    }
}

// ───────────────────────── timeline queries (spec) ─────────────────────────

pub open spec fn is_user_message(i: TimelineItemView) -> bool {
    i matches TimelineItemView::Message(m) && m.role == Role::User
}

pub open spec fn is_assistant_message(i: TimelineItemView) -> bool {
    i matches TimelineItemView::Message(m) && m.role == Role::Assistant
}

pub open spec fn is_tool_with_id(i: TimelineItemView, id: Seq<char>) -> bool {
    i matches TimelineItemView::Tool(t) && t.id == id
}

/// Index of the last tool card with this id.
pub open spec fn tool_slot(items: Seq<TimelineItemView>, id: Seq<char>) -> Option<int>
    decreases items.len(),
{
    if items.len() == 0 {
        None
    } else if is_tool_with_id(items.last(), id) {
        Some(items.len() - 1)
    } else {
        tool_slot(items.drop_last(), id)
    }
}

/// Index of the last assistant message.
pub open spec fn assistant_slot(items: Seq<TimelineItemView>) -> Option<int>
    decreases items.len(),
{
    if items.len() == 0 {
        None
    } else if is_assistant_message(items.last()) {
        Some(items.len() - 1)
    } else {
        assistant_slot(items.drop_last())
    }
}

/// Index of the latest plan card after the most recent user message.
pub open spec fn plan_slot(items: Seq<TimelineItemView>) -> Option<int>
    decreases items.len(),
{
    if items.len() == 0 || is_user_message(items.last()) {
        None
    } else if items.last() is Plan {
        Some(items.len() - 1)
    } else {
        plan_slot(items.drop_last())
    }
}

/// Text of the first user message, if any.
pub open spec fn first_user_text(items: Seq<TimelineItemView>) -> Option<Seq<char>>
    decreases items.len(),
{
    if items.len() == 0 {
        None
    } else if is_user_message(items[0]) {
        Some(items[0]->Message_0.text)
    } else {
        first_user_text(items.drop_first())
    }
}

/// Text of the last assistant message, or empty.
pub open spec fn spec_last_assistant_text(items: Seq<TimelineItemView>) -> Seq<char> {
    match assistant_slot(items) {
        Some(i) => items[i]->Message_0.text,
        None => Seq::empty(),
    }
}

/// Titles of the tool cards after the most recent user message, in order.
pub open spec fn spec_tools_since_last_user(items: Seq<TimelineItemView>) -> Seq<Seq<char>>
    decreases items.len(),
{
    if items.len() == 0 || is_user_message(items.last()) {
        Seq::empty()
    } else if items.last() is Tool {
        spec_tools_since_last_user(items.drop_last()).push(items.last()->Tool_0.title)
    } else {
        spec_tools_since_last_user(items.drop_last())
    }
}

// ───────────────────────── transitions (spec) ─────────────────────────

/// Back to the live session: the live snapshot returns and the title is
/// taken from its first user message.
pub open spec fn spec_return_to_live(m: ModelView) -> ModelView {
    if m.viewing_session_id is Some {
        ModelView {
            main_nav: MainNav::Chat,
            viewing_session_id: None,
            timeline: m.live_timeline,
            live_timeline: Seq::empty(),
            task_title: match first_user_text(m.live_timeline) {
                Some(t) if spec_truncate_chars(t, 42).len() > 0 => spec_truncate_chars(t, 42),
                _ => "新对话"@,
            },
            ..m
        }
    } else {
        ModelView { main_nav: MainNav::Chat, ..m }
    }
}

/// The live view: history viewing ends before live output is shown.
pub open spec fn spec_live(m: ModelView) -> ModelView {
    if m.viewing_session_id is Some {
        spec_return_to_live(m)
    } else {
        m
    }
}

pub open spec fn message_view(
    role: Role,
    text: Seq<char>,
    source: MessageSource,
) -> TimelineItemView {
    TimelineItemView::Message(
        ChatMessageView { role, text, turn_usage: None, source },
    )
}

/// A streamed assistant delta: merged into the trailing assistant message
/// when that message came from the same backend (Grok when `zc` is false,
/// ZeroClaw when it is true), or else a new message from that backend.
pub open spec fn spec_assistant_delta(
    items: Seq<TimelineItemView>,
    delta: Seq<char>,
    zc: bool,
) -> Seq<TimelineItemView> {
    let src = if zc {
        MessageSource::Zeroclaw
    } else {
        MessageSource::Grok
    };
    if items.len() > 0 && is_assistant_message(items.last()) && items.last()->Message_0.source
        == src {
        let m = items.last()->Message_0;
        items.update(
            items.len() - 1,
            TimelineItemView::Message(
                ChatMessageView { text: spec_merge_stream(m.text, delta), ..m },
            ),
        )
    } else {
        items.push(message_view(Role::Assistant, delta, src))
    }
}

/// A streamed thought delta: merged into a trailing thought card or a new open one.
pub open spec fn spec_thought_delta(items: Seq<TimelineItemView>, delta: Seq<char>) -> Seq<
    TimelineItemView,
> {
    if items.len() > 0 && items.last() is Thought {
        let t = items.last()->Thought_0;
        items.update(
            items.len() - 1,
            TimelineItemView::Thought(ThoughtCardView { text: spec_merge_stream(t.text, delta), ..t }),
        )
    } else {
        items.push(TimelineItemView::Thought(ThoughtCardView { text: delta, open: true }))
    }
}

/// A plan update replaces the latest plan of the current turn, or adds one.
pub open spec fn spec_plan_update(items: Seq<TimelineItemView>, entries: Seq<PlanEntryView>) -> Seq<
    TimelineItemView,
> {
    match plan_slot(items) {
        Some(i) => items.update(
            i,
            TimelineItemView::Plan(PlanCardView { entries, ..items[i]->Plan_0 }),
        ),
        None => items.push(TimelineItemView::Plan(PlanCardView { entries, open: true })),
    }
}

/// A tool start (`zc` selects the ZeroClaw rules, which overwrite kind and
/// detail unconditionally and keep the stored kind).
pub open spec fn spec_tool_start(
    items: Seq<TimelineItemView>,
    id: Seq<char>,
    title: Seq<char>,
    kind: Seq<char>,
    detail: Seq<char>,
    zc: bool,
) -> Seq<TimelineItemView> {
    match tool_slot(items, id) {
        Some(i) => {
            let t = items[i]->Tool_0;
            items.update(
                i,
                TimelineItemView::Tool(
                    ToolCardView {
                        title,
                        kind: if !zc && kind.len() > 0 {
                            kind
                        } else {
                            t.kind
                        },
                        status: "InProgress"@,
                        detail: if zc || detail.len() > 0 {
                            detail
                        } else {
                            t.detail
                        },
                        open: true,
                        ..t
                    },
                ),
            )
        },
        None => items.push(
            TimelineItemView::Tool(
                ToolCardView { id, title, kind, status: "InProgress"@, detail, open: true },
            ),
        ),
    }
}

/// A tool update: non-empty fields overwrite the card (the grok rules also
/// reopen it); an unknown id adds a card titled "Tool".
pub open spec fn spec_tool_update(
    items: Seq<TimelineItemView>,
    id: Seq<char>,
    status: Seq<char>,
    kind: Seq<char>,
    detail: Seq<char>,
    zc: bool,
) -> Seq<TimelineItemView> {
    match tool_slot(items, id) {
        Some(i) => {
            let t = items[i]->Tool_0;
            items.update(
                i,
                TimelineItemView::Tool(
                    ToolCardView {
                        status: if status.len() > 0 {
                            status
                        } else {
                            t.status
                        },
                        kind: if kind.len() > 0 {
                            kind
                        } else {
                            t.kind
                        },
                        detail: if detail.len() > 0 {
                            detail
                        } else {
                            t.detail
                        },
                        open: if zc {
                            t.open
                        } else {
                            true
                        },
                        ..t
                    },
                ),
            )
        },
        None => items.push(
            TimelineItemView::Tool(
                ToolCardView { id, title: "Tool"@, kind, status, detail, open: true },
            ),
        ),
    }
}

/// Keep only the newest `n` turns.
pub open spec fn keep_last(turns: Seq<TurnRecord>, n: nat) -> Seq<TurnRecord> {
    if turns.len() > n {
        turns.subrange(turns.len() - n, turns.len() as int)
    } else {
        turns
    }
}

/// Most turns kept in memory.
pub const HISTORY_TURNS_MAX: usize = 200;

/// A finished turn: its usage is attached to the last assistant message, a
/// placeholder title is replaced by the first line of the user's text, and
/// the record joins the (bounded) history.
pub open spec fn spec_turn_done(l: ModelView, record: TurnRecord) -> ModelView {
    ModelView {
        busy: false,
        status: "Ready"@,
        timeline: match assistant_slot(l.timeline) {
            Some(i) => l.timeline.update(
                i,
                TimelineItemView::Message(
                    ChatMessageView {
                        turn_usage: Some(record.usage_delta),
                        ..l.timeline[i]->Message_0
                    },
                ),
            ),
            None => l.timeline,
        },
        task_title: if spec_is_default_task_title(l.task_title) && record.user_text@.len() > 0 {
            spec_truncate_chars(record.user_text@, 28)
        } else {
            l.task_title
        },
        history_turns: keep_last(l.history_turns.push(record), HISTORY_TURNS_MAX as nat),
        ..l
    }
}

/// How the grok connection's events change the session state.
pub open spec fn spec_apply(m: ModelView, e: AgentEvent) -> ModelView {
    match e {
        AgentEvent::Status(s) => ModelView { status: s@, ..m },
        AgentEvent::NeedsLogin { message } => ModelView {
            needs_login: true,
            connected: false,
            busy: false,
            login_message: message@,
            status: "Sign in required"@,
            ..m
        },
        AgentEvent::Disconnected => ModelView {
            connected: false,
            session_id: None,
            status: "Reconnecting…"@,
            ..m
        },
        AgentEvent::Connected {
            session_id,
            cwd,
            current_model_id,
            current_model_name,
            models,
            current_mode_id,
            modes,
            restored,
        } => ModelView {
            session_id: Some(session_id@),
            cwd: Some(cwd@),
            connected: true,
            needs_login: false,
            busy: false,
            current_model_id: current_model_id@,
            current_model_name: current_model_name@,
            available_models: models@,
            current_mode_id: current_mode_id@,
            available_modes: modes@,
            status: "Ready"@,
            ..m
        },
        AgentEvent::ModelChanged { model_id, name } => ModelView {
            current_model_id: model_id@,
            current_model_name: name@,
            show_model_picker: false,
            status: "Ready"@,
            ..m
        },
        AgentEvent::ModeChanged { mode_id } => ModelView {
            current_mode_id: mode_id@,
            status: "Ready"@,
            ..m
        },
        AgentEvent::AssistantDelta(d) => {
            let l = spec_live(m);
            ModelView {
                busy: true,
                status: "Working…"@,
                timeline: spec_assistant_delta(l.timeline, d@, false),
                ..l
            }
        },
        AgentEvent::ThoughtDelta(d) => {
            let l = spec_live(m);
            ModelView {
                busy: true,
                status: "Thinking…"@,
                timeline: spec_thought_delta(l.timeline, d@),
                ..l
            }
        },
        AgentEvent::PlanUpdate { entries } => {
            let l = spec_live(m);
            ModelView {
                busy: true,
                status: "Planning…"@,
                timeline: spec_plan_update(l.timeline, entries@),
                ..l
            }
        },
        AgentEvent::ToolStart { id, title, kind, detail } => {
            let l = spec_live(m);
            ModelView {
                busy: true,
                status: "Running tools…"@,
                timeline: spec_tool_start(l.timeline, id@, title@, kind@, detail@, false),
                ..l
            }
        },
        AgentEvent::ToolUpdate { id, status, kind, detail } => {
            let l = spec_live(m);
            ModelView {
                timeline: spec_tool_update(l.timeline, id@, status@, kind@, detail@, false),
                ..l
            }
        },
        AgentEvent::PermissionRequest { tool_call_id, title, options } => ModelView {
            pending_permission: Some(PendingPermission { tool_call_id, title, options }),
            status: "Needs approval"@,
            ..m
        },
        AgentEvent::TurnDone { record } => spec_turn_done(spec_live(m), record),
        AgentEvent::Error(err) => {
            let l = spec_live(m);
            ModelView {
                busy: false,
                status: "Error"@,
                timeline: l.timeline.push(message_view(Role::System, err@, MessageSource::Grok)),
                ..l
            }
        },
    }
}

/// How the ZeroClaw connection's events change the shared timeline; its
/// connection, model, mode and permission events leave the state alone.
pub open spec fn spec_apply_zc(m: ModelView, e: AgentEvent) -> ModelView {
    match e {
        AgentEvent::Status(s) => ModelView { status: s@, ..m },
        AgentEvent::AssistantDelta(d) => {
            let l = spec_live(m);
            ModelView {
                busy: true,
                status: "Working…"@,
                timeline: spec_assistant_delta(l.timeline, d@, true),
                ..l
            }
        },
        AgentEvent::ThoughtDelta(d) => {
            let l = spec_live(m);
            ModelView { busy: true, timeline: spec_thought_delta(l.timeline, d@), ..l }
        },
        AgentEvent::ToolStart { id, title, kind, detail } => {
            let l = spec_live(m);
            ModelView {
                busy: true,
                timeline: spec_tool_start(l.timeline, id@, title@, kind@, detail@, true),
                ..l
            }
        },
        AgentEvent::ToolUpdate { id, status, kind, detail } => {
            let l = spec_live(m);
            ModelView {
                timeline: spec_tool_update(l.timeline, id@, status@, kind@, detail@, true),
                ..l
            }
        },
        AgentEvent::TurnDone { .. } => ModelView { busy: false, status: "Ready"@, ..m },
        AgentEvent::Error(err) => {
            let l = spec_live(m);
            ModelView {
                busy: false,
                status: "Error"@,
                timeline: l.timeline.push(
                    message_view(Role::System, err@, MessageSource::Zeroclaw),
                ),
                ..l
            }
        },
        _ => m,
    }
}

} // verus!

verus! {

pub proof fn lemma_tool_slot(items: Seq<TimelineItemView>, id: Seq<char>)
    ensures
        tool_slot(items, id) matches Some(i) ==> 0 <= i < items.len() && is_tool_with_id(
            items[i],
            id,
        ),
    decreases items.len(),
{
    if items.len() > 0 && !is_tool_with_id(items.last(), id) {
        lemma_tool_slot(items.drop_last(), id);
    }
}

pub proof fn lemma_assistant_slot(items: Seq<TimelineItemView>)
    ensures
        assistant_slot(items) matches Some(i) ==> 0 <= i < items.len() && is_assistant_message(
            items[i],
        ),
    decreases items.len(),
{
    if items.len() > 0 && !is_assistant_message(items.last()) {
        lemma_assistant_slot(items.drop_last());
    }
}

pub proof fn lemma_plan_slot(items: Seq<TimelineItemView>)
    ensures
        plan_slot(items) matches Some(i) ==> 0 <= i < items.len() && items[i] is Plan,
    decreases items.len(),
{
    if items.len() > 0 && !is_user_message(items.last()) && !(items.last() is Plan) {
        lemma_plan_slot(items.drop_last());
    }
}

pub proof fn lemma_items_view_push(s: Seq<TimelineItem>, x: TimelineItem)
    ensures
        items_view(s.push(x)) == items_view(s).push(x@),
{
    assert(items_view(s.push(x)) =~= items_view(s).push(x@));
}

pub proof fn lemma_items_view_update(s: Seq<TimelineItem>, i: int, x: TimelineItem)
    requires
        0 <= i < s.len(),
    ensures
        items_view(s.update(i, x)) == items_view(s).update(i, x@),
{
    assert(items_view(s.update(i, x)) =~= items_view(s).update(i, x@));
}

pub proof fn lemma_strings_view_push(s: Seq<String>, x: String)
    ensures
        strings_view(s.push(x)) == strings_view(s).push(x@),
{
    assert(strings_view(s.push(x)) =~= strings_view(s).push(x@));
}

/// A string holding the text of `s`.
pub fn lit(s: &str) -> (r: String)
    ensures
        r@ == s@,
{
    s.to_owned()
}

/// A placeholder item used while an item is taken out of the timeline: a
/// closed, empty thought.
fn placeholder_item() -> (r: TimelineItem)
    ensures
        r@ == TimelineItemView::Thought(ThoughtCardView { text: Seq::empty(), open: false }),
{
    TimelineItem::Thought(ThoughtCard { text: String::new(), open: false })
}

impl AppModel {
    /// Index of the last tool card with this id.
    pub fn find_tool(&self, id: &str) -> (r: Option<usize>)
        ensures
            match r {
                Some(i) => tool_slot(self@.timeline, id@) == Some(i as int),
                None => tool_slot(self@.timeline, id@) is None,
            },
    {
        find_tool_in(&self.timeline, id)
    }

    /// Text of the last assistant message, or empty.
    pub fn last_assistant_text(&self) -> (r: String)
        ensures
            r@ == spec_last_assistant_text(self@.timeline),
    {
        proof {
            lemma_assistant_slot(self@.timeline);
        }
        match find_last_assistant_in(&self.timeline) {
            Some(i) => match &self.timeline[i] {
                TimelineItem::Message(m) => m.text.clone(),
                _ => String::new(),
            },
            None => String::new(),
        }
    }

    /// Text of the latest assistant message, or empty.
    pub fn latest_assistant_text(&self) -> (r: String)
        ensures
            r@ == spec_last_assistant_text(self@.timeline),
    {
        self.last_assistant_text()
    }

    /// Titles of the tool cards after the most recent user message, in order.
    pub fn tools_since_last_user(&self) -> (r: Vec<String>)
        ensures
            strings_view(r@) == spec_tools_since_last_user(self@.timeline),
    {
        let ghost items = self@.timeline;
        let mut i = self.timeline.len();
        let mut rev: Vec<String> = Vec::new();
        assert(items.subrange(0, i as int) =~= items);
        // `rev` holds the titles seen so far, newest first.
        assert(spec_tools_since_last_user(items.subrange(0, 0)) =~= Seq::<Seq<char>>::empty());
        assert(Seq::<Seq<char>>::empty() + strings_view(rev@).reverse() =~= strings_view(rev@).reverse());
        while i > 0
            invariant
                i <= self.timeline.len(),
                items == items_view(self.timeline@),
                spec_tools_since_last_user(items) == spec_tools_since_last_user(
                    items.subrange(0, i as int),
                ) + strings_view(rev@).reverse(),
            ensures
                spec_tools_since_last_user(items) == strings_view(rev@).reverse(),
            decreases i,
        {
            let ghost sub = items.subrange(0, i as int);
            assert(sub.last() == items[i - 1]);
            assert(sub.drop_last() =~= items.subrange(0, i - 1));
            match &self.timeline[i - 1] {
                TimelineItem::Message(m) => {
                    if m.role == Role::User {
                        assert(spec_tools_since_last_user(sub) =~= Seq::<Seq<char>>::empty());
                        assert(spec_tools_since_last_user(items) =~= strings_view(rev@).reverse());
                        break;
                    }
                },
                TimelineItem::Tool(t) => {
                    let ghost before = rev@;
                    rev.push(t.title.clone());
                    proof {
                        lemma_strings_view_push(before, t.title);
                        assert(strings_view(before).push(t.title@).reverse() =~= seq![t.title@]
                            + strings_view(before).reverse());
                    }
                },
                _ => {},
            }
            i = i - 1;
        }
        let mut out: Vec<String> = Vec::new();
        let mut k = rev.len();
        while k > 0
            invariant
                k <= rev.len(),
                out.len() == rev.len() - k,
                forall|j: int| 0 <= j < out.len() ==> (#[trigger] out@[j])@ == rev@[rev.len() - 1 - j]@,
            decreases k,
        {
            out.push(rev[k - 1].clone());
            k = k - 1;
        }
        assert(strings_view(out@) =~= strings_view(rev@).reverse());
        out
    }
}

} // verus!

verus! {

/// Title of a live timeline: its first user message cut to 42 characters,
/// or the default title.
pub fn live_title(items: &Vec<TimelineItem>) -> (r: String)
    ensures
        r@ == (match first_user_text(items_view(items@)) {
            Some(t) if spec_truncate_chars(t, 42).len() > 0 => spec_truncate_chars(t, 42),
            _ => "新对话"@,
        }),
{
    match AppModel::first_user_text(items) {
        Some(t) => {
            let cut = truncate_chars(t.as_str(), 42);
            if cut.as_str().is_empty() {
                lit("新对话")
            } else {
                cut
            }
        },
        None => lit("新对话"),
    }
}

impl AppModel {
    /// Text of the first user message, if any.
    pub fn first_user_text(items: &Vec<TimelineItem>) -> (r: Option<String>)
        ensures
            opt_view(r) == first_user_text(items_view(items@)),
    {
        let ghost iv = items_view(items@);
        let mut i: usize = 0;
        assert(iv.subrange(0, iv.len() as int) =~= iv);
        while i < items.len()
            invariant
                i <= items.len(),
                iv == items_view(items@),
                first_user_text(iv.subrange(i as int, iv.len() as int)) == first_user_text(iv),
            decreases items.len() - i,
        {
            let ghost sub = iv.subrange(i as int, iv.len() as int);
            assert(sub[0] == iv[i as int]);
            match &items[i] {
                TimelineItem::Message(m) => {
                    if m.role == Role::User {
                        return Some(m.text.clone());
                    }
                },
                _ => {},
            }
            assert(sub.drop_first() =~= iv.subrange(i + 1, iv.len() as int));
            i = i + 1;
        }
        None
    }

    /// Leave the read-only history view and show the live session again.
    #[verifier::spinoff_prover]
    #[verifier::rlimit(60)]
    pub fn return_to_live(&mut self)
        ensures
            final(self)@ == spec_return_to_live(old(self)@),
    {
        self.main_nav = MainNav::Chat;
        if self.viewing_session_id.is_some() {
            self.viewing_session_id = None;
            let mut live: Vec<TimelineItem> = Vec::new();
            std::mem::swap(&mut live, &mut self.live_timeline);
            self.timeline = live;
            self.task_title = live_title(&self.timeline);
            assert(items_view(self.live_timeline@) =~= Seq::<TimelineItemView>::empty());
        }
    }

    /// Live output always lands in the live session.
    pub fn ensure_live_view(&mut self)
        ensures
            final(self)@ == spec_live(old(self)@),
    {
        if self.viewing_session_id.is_some() {
            self.return_to_live();
        }
    }

    /// Record a finished turn (live view already shown).
    #[verifier::rlimit(60)]
    fn finish_turn(&mut self, record: TurnRecord)
        ensures
            final(self)@ == spec_turn_done(old(self)@, record),
    {
        self.busy = false;
        self.status = lit("Ready");
        attach_turn_usage(&mut self.timeline, record.usage_delta);
        if is_default_task_title(self.task_title.as_str()) && !record.user_text.as_str().is_empty() {
            self.task_title = truncate_chars(record.user_text.as_str(), 28);
        }
        push_bounded(&mut self.history_turns, record);
    }

    /// Connection, model, mode and permission events of the grok connection.
    #[verifier::rlimit(60)]
    fn apply_connection(&mut self, event: AgentEvent)
        requires
            event is Status || event is NeedsLogin || event is Disconnected || event is Connected
                || event is ModelChanged || event is ModeChanged || event is PermissionRequest,
        ensures
            final(self)@ == spec_apply(old(self)@, event),
    {
        match event {
            AgentEvent::Status(s) => self.status = s,
            AgentEvent::NeedsLogin { message } => {
                self.needs_login = true;
                self.connected = false;
                self.busy = false;
                self.login_message = message;
                self.status = lit("Sign in required");
            },
            AgentEvent::Disconnected => {
                self.connected = false;
                self.session_id = None;
                self.status = lit("Reconnecting…");
            },
            AgentEvent::Connected {
                session_id,
                cwd,
                current_model_id,
                current_model_name,
                models,
                current_mode_id,
                modes,
                restored: _,
            } => {
                self.session_id = Some(session_id);
                self.cwd = Some(cwd);
                self.connected = true;
                self.needs_login = false;
                self.busy = false;
                self.current_model_id = current_model_id;
                self.current_model_name = current_model_name;
                self.available_models = models;
                self.current_mode_id = current_mode_id;
                self.available_modes = modes;
                self.status = lit("Ready");
            },
            AgentEvent::ModelChanged { model_id, name } => {
                self.current_model_id = model_id;
                self.current_model_name = name;
                self.show_model_picker = false;
                self.status = lit("Ready");
            },
            AgentEvent::ModeChanged { mode_id } => {
                self.current_mode_id = mode_id;
                self.status = lit("Ready");
            },
            AgentEvent::PermissionRequest { tool_call_id, title, options } => {
                self.pending_permission = Some(PendingPermission { tool_call_id, title, options });
                self.status = lit("Needs approval");
            },
            _ => {},
        }
    }

    /// Streamed assistant text, thoughts and plans of the grok connection.
    #[verifier::rlimit(60)]
    fn apply_stream(&mut self, event: AgentEvent)
        requires
            event is AssistantDelta || event is ThoughtDelta || event is PlanUpdate,
        ensures
            final(self)@ == spec_apply(old(self)@, event),
    {
        self.ensure_live_view();
        self.busy = true;
        match event {
            AgentEvent::AssistantDelta(delta) => {
                self.status = lit("Working…");
                merge_assistant(&mut self.timeline, delta, false);
            },
            AgentEvent::ThoughtDelta(delta) => {
                self.status = lit("Thinking…");
                merge_thought(&mut self.timeline, delta);
            },
            AgentEvent::PlanUpdate { entries } => {
                self.status = lit("Planning…");
                update_plan(&mut self.timeline, entries);
            },
            _ => {},
        }
    }

    /// Tool events of the grok connection.
    #[verifier::rlimit(60)]
    fn apply_tool(&mut self, event: AgentEvent)
        requires
            event is ToolStart || event is ToolUpdate,
        ensures
            final(self)@ == spec_apply(old(self)@, event),
    {
        self.ensure_live_view();
        match event {
            AgentEvent::ToolStart { id, title, kind, detail } => {
                self.busy = true;
                self.status = lit("Running tools…");
                start_tool(&mut self.timeline, id, title, kind, detail, false);
            },
            AgentEvent::ToolUpdate { id, status, kind, detail } => {
                update_tool(&mut self.timeline, id, status, kind, detail, false);
            },
            _ => {},
        }
    }

    /// End of turn and errors of the grok connection.
    #[verifier::rlimit(60)]
    fn apply_end(&mut self, event: AgentEvent)
        requires
            event is TurnDone || event is Error,
        ensures
            final(self)@ == spec_apply(old(self)@, event),
    {
        self.ensure_live_view();
        match event {
            AgentEvent::TurnDone { record } => {
                self.finish_turn(record);
            },
            AgentEvent::Error(err) => {
                self.busy = false;
                self.status = lit("Error");
                push_message(&mut self.timeline, Role::System, err, MessageSource::Grok);
            },
            _ => {},
        }
    }

    /// Fold one event of the grok connection into the session state.
    pub fn apply(&mut self, event: AgentEvent)
        ensures
            final(self)@ == spec_apply(old(self)@, event),
    {
        let group: u8 = match &event {
            AgentEvent::AssistantDelta(_) | AgentEvent::ThoughtDelta(_)
            | AgentEvent::PlanUpdate { .. } => 1,
            AgentEvent::ToolStart { .. } | AgentEvent::ToolUpdate { .. } => 2,
            AgentEvent::TurnDone { .. } | AgentEvent::Error(_) => 3,
            _ => 0,
        };
        if group == 1 {
            self.apply_stream(event);
        } else if group == 2 {
            self.apply_tool(event);
        } else if group == 3 {
            self.apply_end(event);
        } else {
            self.apply_connection(event);
        }
    }

    /// Streamed text and thoughts of the ZeroClaw connection.
    #[verifier::rlimit(60)]
    fn apply_zc_stream(&mut self, event: AgentEvent)
        requires
            event is AssistantDelta || event is ThoughtDelta,
        ensures
            final(self)@ == spec_apply_zc(old(self)@, event),
    {
        self.ensure_live_view();
        self.busy = true;
        match event {
            AgentEvent::AssistantDelta(delta) => {
                self.status = lit("Working…");
                merge_assistant(&mut self.timeline, delta, true);
            },
            AgentEvent::ThoughtDelta(delta) => {
                merge_thought(&mut self.timeline, delta);
            },
            _ => {},
        }
    }

    /// Tool events and errors of the ZeroClaw connection.
    #[verifier::rlimit(60)]
    fn apply_zc_tool(&mut self, event: AgentEvent)
        requires
            event is ToolStart || event is ToolUpdate || event is Error,
        ensures
            final(self)@ == spec_apply_zc(old(self)@, event),
    {
        self.ensure_live_view();
        match event {
            AgentEvent::ToolStart { id, title, kind, detail } => {
                self.busy = true;
                start_tool(&mut self.timeline, id, title, kind, detail, true);
            },
            AgentEvent::ToolUpdate { id, status, kind, detail } => {
                update_tool(&mut self.timeline, id, status, kind, detail, true);
            },
            AgentEvent::Error(err) => {
                self.busy = false;
                self.status = lit("Error");
                push_message(&mut self.timeline, Role::System, err, MessageSource::Zeroclaw);
            },
            _ => {},
        }
    }

    /// Fold one event of the ZeroClaw connection into the shared timeline.
    #[verifier::rlimit(80)]
    pub fn apply_zc(&mut self, event: AgentEvent)
        ensures
            final(self)@ == spec_apply_zc(old(self)@, event),
    {
        let group: u8 = match &event {
            AgentEvent::AssistantDelta(_) | AgentEvent::ThoughtDelta(_) => 1,
            AgentEvent::ToolStart { .. } | AgentEvent::ToolUpdate { .. } | AgentEvent::Error(_) => 2,
            _ => 0,
        };
        if group == 1 {
            self.apply_zc_stream(event);
        } else if group == 2 {
            self.apply_zc_tool(event);
        } else {
            match event {
                AgentEvent::Status(s) => self.status = s,
                AgentEvent::TurnDone { .. } => {
                    self.busy = false;
                    self.status = lit("Ready");
                },
                _ => {},
            }
        }
    }
}

} // verus!

verus! {

/// Merge a streamed assistant delta into the timeline.
fn merge_assistant(items: &mut Vec<TimelineItem>, delta: String, zc: bool)
    ensures
        items_view(final(items)@) == spec_assistant_delta(items_view(old(items)@), delta@, zc),
{
    let n = items.len();
    let merge = n > 0 && match &items[n - 1] {
        TimelineItem::Message(m) => m.role == Role::Assistant && (if zc {
            m.source == MessageSource::Zeroclaw
        } else {
            m.source == MessageSource::Grok
        }),
        _ => false,
    };
    let ghost before = items@;
    if merge {
        let mut tmp = placeholder_item();
        items.set_and_swap(n - 1, &mut tmp);
        if let TimelineItem::Message(mut m) = tmp {
            merge_stream_text(&mut m.text, delta.as_str());
            let item = TimelineItem::Message(m);
            items.set(n - 1, item);
            proof {
                lemma_items_view_update(before, n - 1, item);
                assert(items@ == before.update(n - 1, item));
            }
        }
    } else {
        let src = if zc {
            MessageSource::Zeroclaw
        } else {
            MessageSource::Grok
        };
        let item = TimelineItem::Message(
            ChatMessage { role: Role::Assistant, text: delta, turn_usage: None, source: src },
        );
        items.push(item);
        proof {
            lemma_items_view_push(before, item);
        }
    }
}

/// Merge a streamed thought delta into the timeline.
fn merge_thought(items: &mut Vec<TimelineItem>, delta: String)
    ensures
        items_view(final(items)@) == spec_thought_delta(items_view(old(items)@), delta@),
{
    let n = items.len();
    let merge = n > 0 && match &items[n - 1] {
        TimelineItem::Thought(_) => true,
        _ => false,
    };
    let ghost before = items@;
    if merge {
        let mut tmp = placeholder_item();
        items.set_and_swap(n - 1, &mut tmp);
        if let TimelineItem::Thought(mut t) = tmp {
            merge_stream_text(&mut t.text, delta.as_str());
            let item = TimelineItem::Thought(t);
            items.set(n - 1, item);
            proof {
                lemma_items_view_update(before, n - 1, item);
            }
        }
    } else {
        let item = TimelineItem::Thought(ThoughtCard { text: delta, open: true });
        items.push(item);
        proof {
            lemma_items_view_push(before, item);
        }
    }
}

/// Replace the current turn's plan, or add one.
fn update_plan(items: &mut Vec<TimelineItem>, entries: Vec<PlanEntryView>)
    ensures
        items_view(final(items)@) == spec_plan_update(items_view(old(items)@), entries@),
{
    let ghost before = items@;
    proof {
        lemma_plan_slot(items_view(items@));
    }
    match find_plan_in(items) {
        Some(i) => {
            let mut tmp = placeholder_item();
            items.set_and_swap(i, &mut tmp);
            if let TimelineItem::Plan(p) = tmp {
                let item = TimelineItem::Plan(PlanCard { entries, open: p.open });
                items.set(i, item);
                proof {
                    lemma_items_view_update(before, i as int, item);
                }
            }
        },
        None => {
            let item = TimelineItem::Plan(PlanCard { entries, open: true });
            items.push(item);
            proof {
                lemma_items_view_push(before, item);
            }
        },
    }
}

/// Start (or restart) a tool card.
fn start_tool(
    items: &mut Vec<TimelineItem>,
    id: String,
    title: String,
    kind: String,
    detail: String,
    zc: bool,
)
    ensures
        items_view(final(items)@) == spec_tool_start(items_view(old(items)@), id@, title@, kind@, detail@, zc),
{
    let ghost before = items@;
    proof {
        lemma_tool_slot(items_view(items@), id@);
    }
    match find_tool_in(items, id.as_str()) {
        Some(i) => {
            let mut tmp = placeholder_item();
            items.set_and_swap(i, &mut tmp);
            if let TimelineItem::Tool(mut card) = tmp {
                card.title = title;
                if !zc && !kind.as_str().is_empty() {
                    card.kind = kind;
                }
                card.status = lit("InProgress");
                if zc || !detail.as_str().is_empty() {
                    card.detail = detail;
                }
                card.open = true;
                let item = TimelineItem::Tool(card);
                items.set(i, item);
                proof {
                    lemma_items_view_update(before, i as int, item);
                }
            }
        },
        None => {
            let item = TimelineItem::Tool(
                ToolCard { id, title, kind, status: lit("InProgress"), detail, open: true },
            );
            items.push(item);
            proof {
                lemma_items_view_push(before, item);
            }
        },
    }
}

/// Apply a tool status update.
fn update_tool(
    items: &mut Vec<TimelineItem>,
    id: String,
    status: String,
    kind: String,
    detail: String,
    zc: bool,
)
    ensures
        items_view(final(items)@) == spec_tool_update(items_view(old(items)@), id@, status@, kind@, detail@, zc),
{
    let ghost before = items@;
    proof {
        lemma_tool_slot(items_view(items@), id@);
    }
    match find_tool_in(items, id.as_str()) {
        Some(i) => {
            let mut tmp = placeholder_item();
            items.set_and_swap(i, &mut tmp);
            if let TimelineItem::Tool(mut card) = tmp {
                if !status.as_str().is_empty() {
                    card.status = status;
                }
                if !kind.as_str().is_empty() {
                    card.kind = kind;
                }
                if !detail.as_str().is_empty() {
                    card.detail = detail;
                }
                if !zc {
                    card.open = true;
                }
                let item = TimelineItem::Tool(card);
                items.set(i, item);
                proof {
                    lemma_items_view_update(before, i as int, item);
                }
            }
        },
        None => {
            let item = TimelineItem::Tool(
                ToolCard { id, title: lit("Tool"), kind, status, detail, open: true },
            );
            items.push(item);
            proof {
                lemma_items_view_push(before, item);
            }
        },
    }
}


} // verus!

verus! {

/// Index of the last tool card with this id.
pub fn find_tool_in(items: &Vec<TimelineItem>, id: &str) -> (r: Option<usize>)
    ensures
        match r {
            Some(i) => tool_slot(items_view(items@), id@) == Some(i as int),
            None => tool_slot(items_view(items@), id@) is None,
        },
{
    let ghost iv = items_view(items@);
    let mut i = items.len();
    assert(iv.subrange(0, i as int) =~= iv);
    while i > 0
        invariant
            i <= items.len(),
            iv == items_view(items@),
            tool_slot(iv.subrange(0, i as int), id@) == tool_slot(iv, id@),
        decreases i,
    {
        let hit = match &items[i - 1] {
            TimelineItem::Tool(t) => str_eq(t.id.as_str(), id),
            _ => false,
        };
        let ghost sub = iv.subrange(0, i as int);
        assert(sub.last() == iv[i - 1]);
        if hit {
            return Some(i - 1);
        }
        assert(sub.drop_last() =~= iv.subrange(0, i - 1));
        i = i - 1;
    }
    None
}

/// Index of the last assistant message.
pub fn find_last_assistant_in(items: &Vec<TimelineItem>) -> (r: Option<usize>)
    ensures
        match r {
            Some(i) => assistant_slot(items_view(items@)) == Some(i as int),
            None => assistant_slot(items_view(items@)) is None,
        },
{
    let ghost iv = items_view(items@);
    let mut i = items.len();
    assert(iv.subrange(0, i as int) =~= iv);
    while i > 0
        invariant
            i <= items.len(),
            iv == items_view(items@),
            assistant_slot(iv.subrange(0, i as int)) == assistant_slot(iv),
        decreases i,
    {
        let hit = match &items[i - 1] {
            TimelineItem::Message(m) => m.role == Role::Assistant,
            _ => false,
        };
        let ghost sub = iv.subrange(0, i as int);
        assert(sub.last() == iv[i - 1]);
        if hit {
            return Some(i - 1);
        }
        assert(sub.drop_last() =~= iv.subrange(0, i - 1));
        i = i - 1;
    }
    None
}

/// Index of the latest plan card after the most recent user message.
pub fn find_plan_in(items: &Vec<TimelineItem>) -> (r: Option<usize>)
    ensures
        match r {
            Some(i) => plan_slot(items_view(items@)) == Some(i as int),
            None => plan_slot(items_view(items@)) is None,
        },
{
    let ghost iv = items_view(items@);
    let mut i = items.len();
    assert(iv.subrange(0, i as int) =~= iv);
    while i > 0
        invariant
            i <= items.len(),
            iv == items_view(items@),
            plan_slot(iv.subrange(0, i as int)) == plan_slot(iv),
        decreases i,
    {
        let ghost sub = iv.subrange(0, i as int);
        assert(sub.last() == iv[i - 1]);
        match &items[i - 1] {
            TimelineItem::Message(m) => {
                if m.role == Role::User {
                    return None;
                }
            },
            TimelineItem::Plan(_) => {
                return Some(i - 1);
            },
            _ => {},
        }
        assert(sub.drop_last() =~= iv.subrange(0, i - 1));
        i = i - 1;
    }
    None
}


} // verus!

verus! {

/// Attach a turn's usage to the last assistant message.
pub fn attach_turn_usage(items: &mut Vec<TimelineItem>, usage: TokenUsage)
    ensures
        items_view(final(items)@) == (match assistant_slot(items_view(old(items)@)) {
            Some(i) => items_view(old(items)@).update(
                i,
                TimelineItemView::Message(
                    ChatMessageView {
                        turn_usage: Some(usage),
                        ..items_view(old(items)@)[i]->Message_0
                    },
                ),
            ),
            None => items_view(old(items)@),
        }),
{
    let ghost before = items@;
    proof {
        lemma_assistant_slot(items_view(items@));
    }
    match find_last_assistant_in(items) {
        Some(i) => {
            let mut tmp = placeholder_item();
            items.set_and_swap(i, &mut tmp);
            if let TimelineItem::Message(mut m) = tmp {
                m.turn_usage = Some(usage);
                let item = TimelineItem::Message(m);
                items.set(i, item);
                proof {
                    lemma_items_view_update(before, i as int, item);
                }
            }
        },
        None => {},
    }
}

/// Append a turn, keeping only the newest `HISTORY_TURNS_MAX`.
pub fn push_bounded(turns: &mut Vec<TurnRecord>, record: TurnRecord)
    ensures
        final(turns)@ == keep_last(old(turns)@.push(record), HISTORY_TURNS_MAX as nat),
{
    turns.push(record);
    if turns.len() > HISTORY_TURNS_MAX {
        let drop_n = turns.len() - HISTORY_TURNS_MAX;
        let kept = turns.split_off(drop_n);
        *turns = kept;
    }
}

} // verus!

verus! {

/// Append a message.
pub fn push_message(items: &mut Vec<TimelineItem>, role: Role, text: String, source: MessageSource)
    ensures
        items_view(final(items)@) == items_view(old(items)@).push(message_view(role, text@, source)),
{
    let ghost before = items@;
    let item = TimelineItem::Message(ChatMessage { role, text, turn_usage: None, source });
    items.push(item);
    proof {
        lemma_items_view_push(before, item);
    }
}

} // verus!

verus! {

// ───────────────────────── session construction and commands ─────────────────────────

/// Index of the first model with this id.
pub open spec fn model_index(models: Seq<ModelChoice>, id: Seq<char>) -> Option<int>
    decreases models.len(),
{
    if models.len() == 0 {
        None
    } else if models.last().id@ == id {
        match model_index(models.drop_last(), id) {
            Some(i) => Some(i),
            None => Some(models.len() - 1),
        }
    } else {
        model_index(models.drop_last(), id)
    }
}

/// The model selected at start: the catalog default when it is listed,
/// else the first listed model, else none (named "model").
pub open spec fn spec_initial_model(models: Seq<ModelChoice>, default_id: Option<String>) -> (
    Seq<char>,
    Seq<char>,
) {
    let by_default = match default_id {
        Some(id) => model_index(models, id@),
        None => None,
    };
    match by_default {
        Some(i) => (models[i].id@, models[i].name@),
        None => if models.len() > 0 {
            (models[0].id@, models[0].name@)
        } else {
            (Seq::empty(), "model"@)
        },
    }
}

pub open spec fn spec_new(
    initial_cwd: Seq<char>,
    recent_projects: Seq<Seq<char>>,
    models: Seq<ModelChoice>,
    default_model_id: Option<String>,
    display_name: Seq<char>,
    history_turns: Seq<TurnRecord>,
) -> ModelView {
    let sel = spec_initial_model(models, default_model_id);
    ModelView {
        status: "Connecting…"@,
        session_id: None,
        cwd: Some(initial_cwd),
        timeline: Seq::empty(),
        live_timeline: Seq::empty(),
        pending_permission: None,
        busy: false,
        draft: Seq::empty(),
        auto_scroll: true,
        connected: false,
        needs_login: false,
        login_message: "Sign in to chat with Bony Build."@,
        current_model_id: sel.0,
        current_model_name: sel.1,
        available_models: models,
        show_model_picker: false,
        current_mode_id: Seq::empty(),
        available_modes: Seq::empty(),
        show_user_menu: false,
        show_usage_detail: false,
        show_about: false,
        show_left_sidebar: true,
        show_right_panel: false,
        focus_composer: false,
        main_nav: MainNav::Chat,
        task_filter: Seq::empty(),
        show_task_search: false,
        usage_tab: UsageTab::Charts,
        viewing_session_id: None,
        task_title: "新对话"@,
        display_name,
        history_turns,
        history_expanded: Seq::empty(),
        recent_projects,
    }
}

/// Index of the first model with this id.
pub fn find_model(models: &Vec<ModelChoice>, id: &str) -> (r: Option<usize>)
    ensures
        match r {
            Some(i) => model_index(models@, id@) == Some(i as int),
            None => model_index(models@, id@) is None,
        },
{
    let mut i: usize = 0;
    while i < models.len()
        invariant
            i <= models.len(),
            model_index(models@.subrange(0, i as int), id@) is None,
        decreases models.len() - i,
    {
        if str_eq(models[i].id.as_str(), id) {
            proof {
                lemma_model_index_first(models@, id@, i as int);
            }
            return Some(i);
        }
        assert(models@.subrange(0, i + 1).drop_last() =~= models@.subrange(0, i as int));
        i = i + 1;
    }
    assert(models@.subrange(0, models.len() as int) =~= models@);
    None
}

pub proof fn lemma_model_index_prefix(models: Seq<ModelChoice>, id: Seq<char>, k: int)
    requires
        0 <= k <= models.len(),
        model_index(models.subrange(0, k), id) is Some,
    ensures
        model_index(models, id) == model_index(models.subrange(0, k), id),
    decreases models.len() - k,
{
    if k < models.len() {
        assert(models.subrange(0, k + 1).drop_last() =~= models.subrange(0, k));
        assert(model_index(models.subrange(0, k + 1), id) == model_index(models.subrange(0, k), id));
        lemma_model_index_prefix(models, id, k + 1);
    } else {
        assert(models.subrange(0, k) =~= models);
    }
}

pub proof fn lemma_model_index_range(models: Seq<ModelChoice>, id: Seq<char>)
    ensures
        model_index(models, id) matches Some(i) ==> 0 <= i < models.len() && models[i].id@ == id,
    decreases models.len(),
{
    if models.len() > 0 {
        lemma_model_index_range(models.drop_last(), id);
    }
}

pub proof fn lemma_model_index_first(models: Seq<ModelChoice>, id: Seq<char>, i: int)
    requires
        0 <= i < models.len(),
        model_index(models.subrange(0, i), id) is None,
        models[i].id@ == id,
    ensures
        model_index(models, id) == Some(i),
{
    assert(models.subrange(0, i + 1).drop_last() =~= models.subrange(0, i));
    lemma_model_index_prefix(models, id, i + 1);
}

/// Title of a replayed history task: its first turn's user text cut to 42
/// characters, or the history default.
pub open spec fn spec_history_title(turns: Seq<TurnRecord>) -> Seq<char> {
    if turns.len() > 0 && spec_truncate_chars(turns[0].user_text@, 42).len() > 0 {
        spec_truncate_chars(turns[0].user_text@, 42)
    } else {
        "历史任务"@
    }
}

/// The turns of one session, in order.
pub open spec fn session_turns(turns: Seq<TurnRecord>, sid: Seq<char>) -> Seq<TurnRecord>
    decreases turns.len(),
{
    if turns.len() == 0 {
        Seq::empty()
    } else if turns.last().session_id@ == sid {
        session_turns(turns.drop_last(), sid).push(turns.last())
    } else {
        session_turns(turns.drop_last(), sid)
    }
}

/// The replayed cards of one tool title list: completed, closed, with an id
/// made of the turn id and the title.
pub open spec fn tool_replay(turn_id: Seq<char>, titles: Seq<Seq<char>>) -> Seq<TimelineItemView>
    decreases titles.len(),
{
    if titles.len() == 0 {
        Seq::empty()
    } else {
        tool_replay(turn_id, titles.drop_last()).push(
            TimelineItemView::Tool(
                ToolCardView {
                    id: turn_id + "-"@ + titles.last(),
                    title: titles.last(),
                    kind: Seq::empty(),
                    status: "Completed"@,
                    detail: Seq::empty(),
                    open: false,
                },
            ),
        )
    }
}

/// What one recorded turn looks like when replayed.
pub open spec fn turn_replay(t: TurnRecord) -> Seq<TimelineItemView> {
    (if t.user_text@.len() > 0 {
        seq![message_view(Role::User, t.user_text@, MessageSource::Grok)]
    } else {
        Seq::empty()
    }) + tool_replay(t.id@, strings_view(t.tool_titles@)) + (if t.assistant_text@.len() > 0 {
        seq![
            TimelineItemView::Message(
                ChatMessageView {
                    role: Role::Assistant,
                    text: t.assistant_text@,
                    turn_usage: Some(t.usage_delta),
                    source: MessageSource::Grok,
                },
            ),
        ]
    } else {
        Seq::empty()
    })
}

/// Replay of a list of turns.
pub open spec fn replay(turns: Seq<TurnRecord>) -> Seq<TimelineItemView>
    decreases turns.len(),
{
    if turns.len() == 0 {
        Seq::empty()
    } else {
        replay(turns.drop_last()) + turn_replay(turns.last())
    }
}

pub open spec fn spec_load_task_view(m: ModelView, sid: Seq<char>) -> ModelView {
    let turns = session_turns(m.history_turns, sid);
    ModelView {
        main_nav: MainNav::Chat,
        live_timeline: if m.viewing_session_id is None {
            m.timeline
        } else {
            m.live_timeline
        },
        viewing_session_id: Some(sid),
        task_title: spec_history_title(turns),
        timeline: replay(turns),
        auto_scroll: true,
        show_user_menu: false,
        ..m
    }
}

pub open spec fn spec_new_task(m: ModelView) -> ModelView {
    ModelView {
        main_nav: MainNav::Chat,
        viewing_session_id: None,
        live_timeline: Seq::empty(),
        timeline: Seq::empty(),
        task_title: "新对话"@,
        draft: Seq::empty(),
        pending_permission: None,
        auto_scroll: true,
        show_user_menu: false,
        status: if m.connected && !m.needs_login {
            "Ready"@
        } else {
            m.status
        },
        ..m
    }
}

pub open spec fn spec_push_user(m: ModelView, text: Seq<char>) -> ModelView {
    let l = spec_live(m);
    ModelView {
        task_title: if spec_is_default_task_title(l.task_title) {
            spec_truncate_chars(text, 28)
        } else {
            l.task_title
        },
        timeline: l.timeline.push(message_view(Role::User, text, MessageSource::Grok)),
        busy: true,
        status: "Working…"@,
        ..l
    }
}

/// Only system messages (or nothing) in the timeline.
pub open spec fn spec_is_empty_chat(items: Seq<TimelineItemView>) -> bool {
    forall|i: int|
        0 <= i < items.len() ==> (#[trigger] items[i] matches TimelineItemView::Message(m)
            && m.role == Role::System)
}

/// Position of the first occurrence of `x` in `s` (meaningful when `s` contains `x`).
pub open spec fn first_index(s: Seq<Seq<char>>, x: Seq<char>) -> int {
    choose|i: int| 0 <= i < s.len() && s[i] == x && forall|j: int| 0 <= j < i ==> s[j] != x
}

/// Toggling removes the first occurrence of the id, or appends the id.
pub open spec fn spec_toggle(list: Seq<Seq<char>>, id: Seq<char>) -> Seq<Seq<char>> {
    if list.contains(id) {
        list.remove(first_index(list, id))
    } else {
        list.push(id)
    }
}

/// Non-whitespace characters of `s`, in order.
pub open spec fn non_ws(s: Seq<char>) -> Seq<char>
    decreases s.len(),
{
    if s.len() == 0 {
        Seq::empty()
    } else if spec_is_whitespace(s.last()) {
        non_ws(s.drop_last())
    } else {
        non_ws(s.drop_last()).push(s.last())
    }
}

/// The first two characters of the name that are not white space, `B`
/// standing in for each one missing.
pub open spec fn spec_initial_pair(name: Seq<char>) -> Seq<char> {
    let cs = non_ws(spec_trim(name));
    let a = if cs.len() > 0 {
        cs[0]
    } else {
        'B'
    };
    let b = if cs.len() > 1 {
        cs[1]
    } else {
        'B'
    };
    seq![a, b]
}

pub open spec fn spec_initials(name: Seq<char>) -> Seq<char> {
    unicode_uppercase(spec_initial_pair(name))
}

/// Whether lowered `title` contains the lowered, trimmed filter.
pub open spec fn task_matches(title: Seq<char>, q: Seq<char>) -> bool {
    spec_contains(unicode_lowercase(title), q)
}

/// The tasks whose title matches the query, in order.
pub open spec fn spec_filter_tasks(tasks: Seq<TaskSummary>, q: Seq<char>) -> Seq<TaskSummary>
    decreases tasks.len(),
{
    if tasks.len() == 0 {
        Seq::empty()
    } else if task_matches(tasks.last().title@, q) {
        spec_filter_tasks(tasks.drop_last(), q).push(tasks.last())
    } else {
        spec_filter_tasks(tasks.drop_last(), q)
    }
}

impl AppModel {
    /// A fresh session state. `recent_projects` is the remembered project
    /// list (already holding `initial_cwd`), `models` and `default_model_id`
    /// the model catalog, `history_turns` the recent turns on record.
    pub fn new(
        initial_cwd: String,
        recent_projects: Vec<String>,
        models: Vec<ModelChoice>,
        default_model_id: Option<String>,
        display_name: String,
        history_turns: Vec<TurnRecord>,
    ) -> (r: Self)
        ensures
            r@ == spec_new(
                initial_cwd@,
                strings_view(recent_projects@),
                models@,
                default_model_id,
                display_name@,
                history_turns@,
            ),
    {
        let by_default = match &default_model_id {
            Some(id) => find_model(&models, id.as_str()),
            None => None,
        };
        proof {
            if let Some(id) = default_model_id {
                lemma_model_index_range(models@, id@);
            }
        }
        let (current_model_id, current_model_name) = match by_default {
            Some(i) => (models[i].id.clone(), models[i].name.clone()),
            None => if models.len() > 0 {
                (models[0].id.clone(), models[0].name.clone())
            } else {
                (String::new(), lit("model"))
            },
        };
        let r = AppModel {
            status: lit("Connecting…"),
            session_id: None,
            cwd: Some(initial_cwd),
            timeline: Vec::new(),
            live_timeline: Vec::new(),
            pending_permission: None,
            busy: false,
            draft: String::new(),
            auto_scroll: true,
            connected: false,
            needs_login: false,
            login_message: lit("Sign in to chat with Bony Build."),
            current_model_id,
            current_model_name,
            available_models: models,
            show_model_picker: false,
            current_mode_id: String::new(),
            available_modes: Vec::new(),
            show_user_menu: false,
            show_usage_detail: false,
            show_about: false,
            show_left_sidebar: true,
            show_right_panel: false,
            focus_composer: false,
            main_nav: MainNav::Chat,
            task_filter: String::new(),
            show_task_search: false,
            usage_tab: UsageTab::Charts,
            viewing_session_id: None,
            task_title: lit("新对话"),
            display_name,
            history_turns,
            history_expanded: Vec::new(),
            recent_projects,
        };
        assert(items_view(r.timeline@) =~= Seq::<TimelineItemView>::empty());
        assert(items_view(r.live_timeline@) =~= Seq::<TimelineItemView>::empty());
        assert(strings_view(r.history_expanded@) =~= Seq::<Seq<char>>::empty());
        r
    }

    pub fn go_chat(&mut self)
        ensures
            final(self)@ == (ModelView { main_nav: MainNav::Chat, ..old(self)@ }),
    {
        self.main_nav = MainNav::Chat;
    }

    /// Tag the just-sent user bubble as routed to ZeroClaw.
    pub fn mark_last_user_zeroclaw(&mut self)
        ensures
            final(self)@ == (ModelView {
                timeline: spec_mark_last_user_zc(old(self)@.timeline),
                ..old(self)@
            }),
    {
        mark_user_zc(&mut self.timeline);
    }

    /// Append a routing card after the user bubble.
    pub fn push_route(&mut self, card: RouteCard)
        ensures
            final(self)@ == (ModelView {
                timeline: spec_live(old(self)@).timeline.push(TimelineItemView::Route(card@)),
                auto_scroll: true,
                ..spec_live(old(self)@)
            }),
    {
        self.ensure_live_view();
        let ghost before = self.timeline@;
        let item = TimelineItem::Route(card);
        self.timeline.push(item);
        proof {
            lemma_items_view_push(before, item);
        }
        self.auto_scroll = true;
    }

    /// A message the user sent; a placeholder title becomes its first line.
    #[verifier::rlimit(40)]
    pub fn push_user(&mut self, text: String)
        ensures
            final(self)@ == spec_push_user(old(self)@, text@),
    {
        self.ensure_live_view();
        if is_default_task_title(self.task_title.as_str()) {
            self.task_title = truncate_chars(text.as_str(), 28);
        }
        push_message(&mut self.timeline, Role::User, text, MessageSource::Grok);
        self.busy = true;
        self.status = lit("Working…");
    }

    /// Complete an app-owned action without involving the agent stream.
    #[verifier::rlimit(40)]
    pub fn push_local_assistant(&mut self, text: String)
        ensures
            final(self)@ == (ModelView {
                timeline: spec_live(old(self)@).timeline.push(
                    message_view(Role::Assistant, text@, MessageSource::Grok),
                ),
                busy: false,
                status: "Ready"@,
                auto_scroll: true,
                ..spec_live(old(self)@)
            }),
    {
        self.ensure_live_view();
        push_message(&mut self.timeline, Role::Assistant, text, MessageSource::Grok);
        self.busy = false;
        self.status = lit("Ready");
        self.auto_scroll = true;
    }

    /// A user command handled locally (Unity control).
    #[verifier::rlimit(40)]
    pub fn push_local_user(&mut self, text: String)
        ensures
            final(self)@ == (ModelView {
                timeline: spec_live(old(self)@).timeline.push(
                    message_view(Role::User, text@, MessageSource::Grok),
                ),
                busy: true,
                status: "正在控制 Unity…"@,
                auto_scroll: true,
                ..spec_live(old(self)@)
            }),
    {
        self.ensure_live_view();
        push_message(&mut self.timeline, Role::User, text, MessageSource::Grok);
        self.busy = true;
        self.status = lit("正在控制 Unity…");
        self.auto_scroll = true;
    }

    /// Clear local chat and start a fresh task (same agent session).
    #[verifier::rlimit(40)]
    pub fn new_task(&mut self)
        ensures
            final(self)@ == spec_new_task(old(self)@),
    {
        self.main_nav = MainNav::Chat;
        self.viewing_session_id = None;
        self.live_timeline.clear();
        self.timeline.clear();
        self.task_title = lit("新对话");
        self.draft = String::new();
        self.pending_permission = None;
        self.auto_scroll = true;
        self.show_user_menu = false;
        if self.connected && !self.needs_login {
            self.status = lit("Ready");
        }
        assert(items_view(self.timeline@) =~= Seq::<TimelineItemView>::empty());
        assert(items_view(self.live_timeline@) =~= Seq::<TimelineItemView>::empty());
    }

    /// Display label of a project: its final path component, else the whole path.
    pub fn project_label(path: &str) -> (r: String)
        ensures
            r@.len() > 0 ==> spec_contains(path@, r@) || r@ == path@,
            r@.len() == 0 ==> path@.len() == 0,
            simple_file_name(path@) matches Some(c) ==> r@ == c,
            root_or_empty(path@) ==> r@ == path@,
    {
        match path_file_name(path) {
            Some(name) => {
                if name.as_str().is_empty() {
                    owned(path)
                } else {
                    name
                }
            },
            None => owned(path),
        }
    }

    /// Tasks whose title (lowered) contains the trimmed, lowered filter;
    /// all tasks for an empty filter.
    pub fn filtered_tasks(&self, tasks: Vec<TaskSummary>) -> (r: Vec<TaskSummary>)
        ensures
            ({
                let q = unicode_lowercase(spec_trim(self.task_filter@));
                r@ == if q.len() == 0 {
                    tasks@
                } else {
                    spec_filter_tasks(tasks@, q)
                }
            }),
    {
        let q = to_lowercase(trim_str(self.task_filter.as_str()).as_str());
        if q.as_str().is_empty() {
            return tasks;
        }
        let qv = chars_of(q.as_str());
        let mut out: Vec<TaskSummary> = Vec::new();
        let mut rest = tasks;
        let ghost all = rest@;
        let mut i: usize = 0;
        let n = rest.len();
        // Walk the tasks front to back, moving each match out.
        let mut taken: Vec<TaskSummary> = Vec::new();
        while rest.len() > 0
            invariant
                all == taken@ + rest@,
                out@ == spec_filter_tasks(taken@, qv@),
            decreases rest.len(),
        {
            let t = rest.remove(0);
            let lower = to_lowercase(t.title.as_str());
            let hit = contains_vec(&chars_of(lower.as_str()), &qv);
            let ghost before_taken = taken@;
            let ghost rest_before = rest@;
            if hit {
                out.push(clone_task(&t));
            }
            taken.push(t);
            assert(taken@.drop_last() =~= before_taken);
            assert(all =~= taken@ + rest@);
        }
        assert(taken@ =~= all);
        out
    }

    /// Read-only replay of a historical session's turns.
    #[verifier::rlimit(60)]
    pub fn load_task_view(&mut self, session_id: &str)
        ensures
            final(self)@ == spec_load_task_view(old(self)@, session_id@),
    {
        self.main_nav = MainNav::Chat;
        if self.viewing_session_id.is_none() {
            self.live_timeline = clone_items(&self.timeline);
        }
        self.viewing_session_id = Some(owned(session_id));
        let (title, timeline) = replay_session(&self.history_turns, session_id);
        self.task_title = title;
        self.timeline = timeline;
        self.auto_scroll = true;
        self.show_user_menu = false;
    }

    pub fn is_viewing_history(&self) -> (r: bool)
        ensures
            r == self@.viewing_session_id is Some,
    {
        self.viewing_session_id.is_some()
    }

    /// Two upper-cased initials of the display name ("BB" when missing).
    pub fn initials(&self) -> (r: String)
        ensures
            r@ == spec_initials(self@.display_name),
            spec_all_ascii(spec_initial_pair(self@.display_name)) ==> r@ == spec_initial_pair(
                self@.display_name,
            ).map_values(|c: char| spec_ascii_upper_char(c)),
    {
        let name = trim_vec(&chars_of(self.display_name.as_str()));
        let mut cs: Vec<char> = Vec::new();
        let mut i: usize = 0;
        while i < name.len()
            invariant
                i <= name.len(),
                cs@ == non_ws(name@.subrange(0, i as int)),
            decreases name.len() - i,
        {
            let ghost pre = name@.subrange(0, i as int);
            assert(name@.subrange(0, i + 1).drop_last() =~= pre);
            if !is_whitespace(name[i]) {
                cs.push(name[i]);
            }
            i = i + 1;
        }
        assert(name@.subrange(0, name.len() as int) =~= name@);
        let a = if cs.len() > 0 {
            cs[0]
        } else {
            'B'
        };
        let b = if cs.len() > 1 {
            cs[1]
        } else {
            'B'
        };
        let mut two: Vec<char> = Vec::new();
        two.push(a);
        two.push(b);
        assert(two@ =~= seq![a, b]);
        to_uppercase(string_of(&two).as_str())
    }

    /// Replace the text of the latest assistant message.
    #[verifier::rlimit(40)]
    pub fn replace_latest_assistant(&mut self, text: String)
        ensures
            final(self)@ == (ModelView {
                timeline: match assistant_slot(old(self)@.timeline) {
                    Some(i) => old(self)@.timeline.update(
                        i,
                        TimelineItemView::Message(
                            ChatMessageView { text: text@, ..old(self)@.timeline[i]->Message_0 },
                        ),
                    ),
                    None => old(self)@.timeline,
                },
                ..old(self)@
            }),
    {
        replace_assistant_text(&mut self.timeline, text);
    }

    /// Only system messages (or nothing) are shown.
    pub fn is_empty_chat(&self) -> (r: bool)
        ensures
            r == spec_is_empty_chat(self@.timeline),
    {
        let mut i: usize = 0;
        while i < self.timeline.len()
            invariant
                i <= self.timeline.len(),
                forall|j: int|
                    0 <= j < i ==> (#[trigger] self@.timeline[j] matches TimelineItemView::Message(
                        m,
                    ) && m.role == Role::System),
            decreases self.timeline.len() - i,
        {
            let ok = match &self.timeline[i] {
                TimelineItem::Message(m) => m.role == Role::System,
                _ => false,
            };
            if !ok {
                assert(!(self@.timeline[i as int] matches TimelineItemView::Message(m) && m.role
                    == Role::System));
                return false;
            }
            i = i + 1;
        }
        true
    }

    /// Expand a collapsed history turn, or collapse an expanded one.
    pub fn toggle_history_expanded(&mut self, id: &str)
        ensures
            final(self)@ == (ModelView {
                history_expanded: spec_toggle(old(self)@.history_expanded, id@),
                ..old(self)@
            }),
    {
        toggle_in(&mut self.history_expanded, id);
    }

    pub fn is_history_expanded(&self, id: &str) -> (r: bool)
        ensures
            r == self@.history_expanded.contains(id@),
    {
        position_of(&self.history_expanded, id).is_some()
    }
}

/// Position of the first string equal to `id`.
pub fn position_of(list: &Vec<String>, id: &str) -> (r: Option<usize>)
    ensures
        match r {
            Some(p) => strings_view(list@).contains(id@) && p as int == first_index(
                strings_view(list@),
                id@,
            ) && p < list.len(),
            None => !strings_view(list@).contains(id@),
        },
{
    let ghost sv = strings_view(list@);
    let mut i: usize = 0;
    while i < list.len()
        invariant
            i <= list.len(),
            sv == strings_view(list@),
            forall|j: int| 0 <= j < i ==> sv[j] != id@,
        decreases list.len() - i,
    {
        if str_eq(list[i].as_str(), id) {
            assert(sv[i as int] == list@[i as int]@);
            assert(sv.contains(id@));
            assert(0 <= i < sv.len() && sv[i as int] == id@ && forall|j: int|
                0 <= j < i ==> sv[j] != id@);
            let ghost k = first_index(sv, id@);
            assert(k == i) by {
                if k < i {
                    assert(sv[k] != id@);
                }
                if k > i {
                    assert(sv[i as int] != id@);
                }
            }
            return Some(i);
        }
        i = i + 1;
    }
    None
}

/// A trailing user message re-tagged as sent to ZeroClaw.
pub open spec fn spec_mark_last_user_zc(items: Seq<TimelineItemView>) -> Seq<TimelineItemView> {
    if items.len() > 0 && is_user_message(items.last()) {
        items.update(
            items.len() - 1,
            TimelineItemView::Message(
                ChatMessageView { source: MessageSource::Zeroclaw, ..items.last()->Message_0 },
            ),
        )
    } else {
        items
    }
}

pub fn mark_user_zc(items: &mut Vec<TimelineItem>)
    ensures
        items_view(final(items)@) == spec_mark_last_user_zc(items_view(old(items)@)),
{
    let n = items.len();
    let is_user = n > 0 && match &items[n - 1] {
        TimelineItem::Message(m) => m.role == Role::User,
        _ => false,
    };
    proof {
        if n > 0 {
            assert(items_view(items@).last() == items@[n - 1]@);
        }
    }
    if is_user {
        let ghost before = items@;
        let mut tmp = placeholder_item();
        items.set_and_swap(n - 1, &mut tmp);
        if let TimelineItem::Message(mut m) = tmp {
            m.source = MessageSource::Zeroclaw;
            let item = TimelineItem::Message(m);
            items.set(n - 1, item);
            proof {
                lemma_items_view_update(before, n - 1, item);
            }
        }
    }
}

/// Toggle an id in a list of ids.
pub fn toggle_in(list: &mut Vec<String>, id: &str)
    ensures
        strings_view(final(list)@) == spec_toggle(strings_view(old(list)@), id@),
{
    let ghost before = list@;
    match position_of(list, id) {
        Some(pos) => {
            list.remove(pos);
            proof {
                assert(strings_view(list@) =~= strings_view(before).remove(pos as int));
            }
        },
        None => {
            let s = owned(id);
            list.push(s);
            proof {
                lemma_strings_view_push(before, s);
            }
        },
    }
}

/// A copy of a task summary.
pub fn clone_task(t: &TaskSummary) -> (r: TaskSummary)
    ensures
        r == *t,
{
    TaskSummary { session_id: t.session_id.clone(), title: t.title.clone() }
}

/// Replace the text of the last assistant message.
pub fn replace_assistant_text(items: &mut Vec<TimelineItem>, text: String)
    ensures
        items_view(final(items)@) == (match assistant_slot(items_view(old(items)@)) {
            Some(i) => items_view(old(items)@).update(
                i,
                TimelineItemView::Message(
                    ChatMessageView { text: text@, ..items_view(old(items)@)[i]->Message_0 },
                ),
            ),
            None => items_view(old(items)@),
        }),
{
    let ghost before = items@;
    proof {
        lemma_assistant_slot(items_view(items@));
    }
    match find_last_assistant_in(items) {
        Some(i) => {
            let mut tmp = placeholder_item();
            items.set_and_swap(i, &mut tmp);
            if let TimelineItem::Message(mut m) = tmp {
                m.text = text;
                let item = TimelineItem::Message(m);
                items.set(i, item);
                proof {
                    lemma_items_view_update(before, i as int, item);
                }
            }
        },
        None => {},
    }
}

/// Title and replayed timeline of one recorded session.
pub fn replay_session(turns: &Vec<TurnRecord>, sid: &str) -> (r: (String, Vec<TimelineItem>))
    ensures
        r.0@ == spec_history_title(session_turns(turns@, sid@)),
        items_view(r.1@) == replay(session_turns(turns@, sid@)),
{
    let mut items: Vec<TimelineItem> = Vec::new();
    let mut first: Option<String> = None;
    let mut i: usize = 0;
    assert(items_view(items@) =~= Seq::<TimelineItemView>::empty());
    while i < turns.len()
        invariant
            i <= turns.len(),
            items_view(items@) == replay(session_turns(turns@.subrange(0, i as int), sid@)),
            match first {
                Some(f) => session_turns(turns@.subrange(0, i as int), sid@).len() > 0 && f@
                    == session_turns(turns@.subrange(0, i as int), sid@)[0].user_text@,
                None => session_turns(turns@.subrange(0, i as int), sid@).len() == 0,
            },
        decreases turns.len() - i,
    {
        let ghost pre = turns@.subrange(0, i as int);
        assert(turns@.subrange(0, i + 1).drop_last() =~= pre);
        let t = &turns[i];
        if str_eq(t.session_id.as_str(), sid) {
            if first.is_none() {
                first = Some(t.user_text.clone());
            }
            proof {
                lemma_session_turns_first(pre, turns@[i as int], sid@);
                assert(turns@.subrange(0, i + 1) =~= pre.push(turns@[i as int]));
                assert(session_turns(pre, sid@).push(turns@[i as int]).drop_last() =~= session_turns(
                    pre,
                    sid@,
                ));
            }
            append_turn(&mut items, t);
        } else {
            assert(turns@.subrange(0, i + 1) =~= pre.push(turns@[i as int]));
        }
        i = i + 1;
    }
    assert(turns@.subrange(0, turns.len() as int) =~= turns@);
    let title = match first {
        Some(f) => {
            let cut = truncate_chars(f.as_str(), 42);
            if cut.as_str().is_empty() {
                lit("历史任务")
            } else {
                cut
            }
        },
        None => lit("历史任务"),
    };
    (title, items)
}

pub proof fn lemma_session_turns_first(pre: Seq<TurnRecord>, t: TurnRecord, sid: Seq<char>)
    requires
        t.session_id@ == sid,
    ensures
        session_turns(pre.push(t), sid) == session_turns(pre, sid).push(t),
        session_turns(pre.push(t), sid)[0] == (if session_turns(pre, sid).len() > 0 {
            session_turns(pre, sid)[0]
        } else {
            t
        }),
{
    assert(pre.push(t).drop_last() =~= pre);
}

/// Append the replay of one turn.
pub fn append_turn(items: &mut Vec<TimelineItem>, t: &TurnRecord)
    ensures
        items_view(final(items)@) == items_view(old(items)@) + turn_replay(*t),
{
    let ghost start = items_view(items@);
    if !t.user_text.as_str().is_empty() {
        push_message(items, Role::User, t.user_text.clone(), MessageSource::Grok);
    }
    let ghost after_user = items_view(items@);
    let mut k: usize = 0;
    let ghost titles = strings_view(t.tool_titles@);
    assert(tool_replay(t.id@, titles.subrange(0, 0)) =~= Seq::<TimelineItemView>::empty());
    assert(after_user + Seq::<TimelineItemView>::empty() =~= after_user);
    while k < t.tool_titles.len()
        invariant
            k <= t.tool_titles.len(),
            titles == strings_view(t.tool_titles@),
            items_view(items@) == after_user + tool_replay(t.id@, titles.subrange(0, k as int)),
        decreases t.tool_titles.len() - k,
    {
        let tool = &t.tool_titles[k];
        let mut idv = chars_of(t.id.as_str());
        idv.push('-');
        extend_chars(&mut idv, tool.as_str());
        let ghost before = items@;
        let item = TimelineItem::Tool(
            ToolCard {
                id: string_of(&idv),
                title: tool.clone(),
                kind: String::new(),
                status: lit("Completed"),
                detail: String::new(),
                open: false,
            },
        );
        items.push(item);
        proof {
            lemma_items_view_push(before, item);
            assert(titles.subrange(0, k + 1).drop_last() =~= titles.subrange(0, k as int));
            assert(t.id@.push('-') =~= t.id@ + "-"@) by {
                reveal_strlit("-");
            }
            assert(idv@ =~= t.id@ + "-"@ + tool@);
        }
        k = k + 1;
    }
    assert(titles.subrange(0, titles.len() as int) =~= titles);
    if !t.assistant_text.as_str().is_empty() {
        let ghost before = items@;
        let item = TimelineItem::Message(
            ChatMessage {
                role: Role::Assistant,
                text: t.assistant_text.clone(),
                turn_usage: Some(t.usage_delta),
                source: MessageSource::Grok,
            },
        );
        items.push(item);
        proof {
            lemma_items_view_push(before, item);
        }
    }
    assert(items_view(items@) =~= start + turn_replay(*t));
}

} // verus!

verus! {

// ───────────────────────── laws ─────────────────────────

/// Viewing a history task and then returning to live brings back the live
/// timeline exactly as it was, and ends the history view.
pub proof fn law_history_view_round_trip(m: ModelView, sid: Seq<char>)
    requires
        m.viewing_session_id is None,
    ensures
        spec_return_to_live(spec_load_task_view(m, sid)).timeline == m.timeline,
        spec_return_to_live(spec_load_task_view(m, sid)).viewing_session_id is None,
        spec_return_to_live(spec_load_task_view(m, sid)).live_timeline.len() == 0,
{
}

/// The model after opening the history views of `sids`, one after another.
pub open spec fn spec_load_task_views(m: ModelView, sids: Seq<Seq<char>>) -> ModelView
    decreases sids.len(),
{
    if sids.len() == 0 {
        m
    } else {
        spec_load_task_view(spec_load_task_views(m, sids.drop_last()), sids.last())
    }
}

/// After opening one or more history views in a row from the live view,
/// the live timeline is kept aside and a history view is shown.
pub proof fn lemma_load_task_views_keep_live(m: ModelView, sids: Seq<Seq<char>>)
    requires
        m.viewing_session_id is None,
        sids.len() >= 1,
    ensures
        spec_load_task_views(m, sids).viewing_session_id is Some,
        spec_load_task_views(m, sids).live_timeline == m.timeline,
    decreases sids.len(),
{
    if sids.len() > 1 {
        lemma_load_task_views_keep_live(m, sids.drop_last());
    } else {
        assert(spec_load_task_views(m, sids.drop_last()) == m);
    }
}

/// Opening any number (at least one) of history views in a row and then
/// returning to the live view brings back the live chat exactly: its
/// timeline, no history view, nothing kept aside, and the chat page.
pub proof fn law_history_views_round_trip(m: ModelView, sids: Seq<Seq<char>>)
    requires
        m.viewing_session_id is None,
        sids.len() >= 1,
    ensures
        spec_return_to_live(spec_load_task_views(m, sids)).timeline == m.timeline,
        spec_return_to_live(spec_load_task_views(m, sids)).viewing_session_id is None,
        spec_return_to_live(spec_load_task_views(m, sids)).live_timeline.len() == 0,
        spec_return_to_live(spec_load_task_views(m, sids)).main_nav == MainNav::Chat,
{
    lemma_load_task_views_keep_live(m, sids);
}

/// A short delta merged into a text is appended to it: an update under
/// `LONG_CHUNK` bytes can be neither a re-delivery nor a snapshot.
pub proof fn law_short_delta_appends(current: Seq<char>, delta: Seq<char>)
    requires
        spec_utf8_len(delta) < LONG_CHUNK,
    ensures
        spec_merge_stream(current, delta) == current + delta,
{
    if delta.len() == 0 {
        assert(current + delta =~= current);
    } else if spec_utf8_len(current) >= LONG_CHUNK && spec_starts_with(delta, current) {
        lemma_utf8_len_prefix_le(delta, current.len() as int);
    }
}

/// The thinking text that a thought delta lands on, in a live timeline
/// ending with a thought card: the card stays where it is, every earlier
/// item is untouched, the card never loses the text it showed, and a short
/// delta is appended to it.
pub open spec fn thought_card_extended(before: Seq<TimelineItemView>, after: Seq<TimelineItemView>, delta: Seq<char>) -> bool {
    let old_text = before.last()->Thought_0.text;
    &&& after.len() == before.len()
    &&& after.drop_last() == before.drop_last()
    &&& after.last() is Thought
    &&& after.last()->Thought_0.open == before.last()->Thought_0.open
    &&& spec_starts_with(after.last()->Thought_0.text, old_text)
    &&& spec_utf8_len(delta) < LONG_CHUNK ==> after.last()->Thought_0.text == old_text + delta
}

/// A thought delta from either backend, arriving while the live chat ends
/// with a thought card, extends that card (see `thought_card_extended`).
pub proof fn law_thought_delta_extends_card(m: ModelView, delta: String)
    requires
        m.viewing_session_id is None,
        m.timeline.len() > 0,
        m.timeline.last() is Thought,
    ensures
        thought_card_extended(m.timeline, spec_apply(m, AgentEvent::ThoughtDelta(delta)).timeline, delta@),
        thought_card_extended(m.timeline, spec_apply_zc(m, AgentEvent::ThoughtDelta(delta)).timeline, delta@),
{
    let t = m.timeline.last()->Thought_0;
    law_merge_keeps_prefix(t.text, delta@);
    if spec_utf8_len(delta@) < LONG_CHUNK {
        law_short_delta_appends(t.text, delta@);
    }
    let after = spec_thought_delta(m.timeline, delta@);
    assert(after.drop_last() =~= m.timeline.drop_last());
    assert(spec_apply(m, AgentEvent::ThoughtDelta(delta)).timeline == after);
    assert(spec_apply_zc(m, AgentEvent::ThoughtDelta(delta)).timeline == after);
}

/// An assistant delta lands on the trailing assistant message: the
/// message stays where it is with its role, source and usage, every
/// earlier item is untouched, the message never loses the text it showed,
/// and a short delta is appended to it.
pub open spec fn assistant_message_extended(
    before: Seq<TimelineItemView>,
    after: Seq<TimelineItemView>,
    delta: Seq<char>,
) -> bool {
    let old_msg = before.last()->Message_0;
    &&& after.len() == before.len()
    &&& after.drop_last() == before.drop_last()
    &&& after.last() is Message
    &&& after.last()->Message_0.role == old_msg.role
    &&& after.last()->Message_0.source == old_msg.source
    &&& after.last()->Message_0.turn_usage == old_msg.turn_usage
    &&& spec_starts_with(after.last()->Message_0.text, old_msg.text)
    &&& spec_utf8_len(delta) < LONG_CHUNK ==> after.last()->Message_0.text == old_msg.text + delta
}

/// A backend's assistant delta, arriving while the live chat ends with an
/// assistant message of that backend, extends that message.
pub proof fn law_assistant_delta_extends_message(m: ModelView, delta: String)
    requires
        m.viewing_session_id is None,
        m.timeline.len() > 0,
        m.timeline.last() is Message,
        m.timeline.last()->Message_0.role == Role::Assistant,
    ensures
        m.timeline.last()->Message_0.source == MessageSource::Grok ==> assistant_message_extended(
            m.timeline,
            spec_apply(m, AgentEvent::AssistantDelta(delta)).timeline,
            delta@,
        ),
        m.timeline.last()->Message_0.source == MessageSource::Zeroclaw ==> assistant_message_extended(
            m.timeline,
            spec_apply_zc(m, AgentEvent::AssistantDelta(delta)).timeline,
            delta@,
        ),
{
    let t = m.timeline.last()->Message_0;
    law_merge_keeps_prefix(t.text, delta@);
    if spec_utf8_len(delta@) < LONG_CHUNK {
        law_short_delta_appends(t.text, delta@);
    }
    if t.source == MessageSource::Grok {
        let g = spec_assistant_delta(m.timeline, delta@, false);
        assert(g.drop_last() =~= m.timeline.drop_last());
        assert(spec_apply(m, AgentEvent::AssistantDelta(delta)).timeline == g);
    } else {
        let z = spec_assistant_delta(m.timeline, delta@, true);
        assert(z.drop_last() =~= m.timeline.drop_last());
        assert(spec_apply_zc(m, AgentEvent::AssistantDelta(delta)).timeline == z);
    }
}

/// Returning to the live view twice is the same as once.
pub proof fn law_live_view_idempotent(m: ModelView)
    ensures
        spec_live(spec_live(m)) == spec_live(m),
{
}

/// A new task shows an empty chat and leaves history viewing.
pub proof fn law_new_task_is_empty(m: ModelView)
    ensures
        spec_is_empty_chat(spec_new_task(m).timeline),
        spec_new_task(m).viewing_session_id is None,
{
}

/// Toggling an id flips whether it is expanded, and keeps the list free of
/// repeats when it had none.
pub proof fn law_toggle_flips(list: Seq<Seq<char>>, id: Seq<char>)
    requires
        list.no_duplicates(),
    ensures
        spec_toggle(list, id).contains(id) == !list.contains(id),
        spec_toggle(list, id).no_duplicates(),
{
    if list.contains(id) {
        let k = first_index(list, id);
        let i = choose|i: int| 0 <= i < list.len() && list[i] == id;
        assert(0 <= i < list.len() && list[i] == id);
        assert(exists|j: int| 0 <= j < list.len() && list[j] == id && forall|l: int|
            0 <= l < j ==> list[l] != id) by {
            lemma_first_occurrence(list, id, i);
        }
        let r = list.remove(k);
        assert(!r.contains(id)) by {
            if r.contains(id) {
                let j = choose|j: int| 0 <= j < r.len() && r[j] == id;
                if j < k {
                    assert(list[j] == id);
                } else {
                    assert(list[j + 1] == id);
                }
            }
        }
    } else {
        let r = list.push(id);
        assert(r[r.len() - 1] == id);
        assert(r.no_duplicates()) by {
            assert forall|a: int, b: int| 0 <= a < r.len() && 0 <= b < r.len() && a != b implies r[a]
                != r[b] by {
                if a == r.len() - 1 {
                    assert(list[b] != id);
                } else if b == r.len() - 1 {
                    assert(list[a] != id);
                }
            }
        }
    }
}

pub proof fn lemma_first_occurrence(s: Seq<Seq<char>>, x: Seq<char>, i: int)
    requires
        0 <= i < s.len(),
        s[i] == x,
    ensures
        exists|j: int| 0 <= j < s.len() && s[j] == x && forall|l: int| 0 <= l < j ==> s[l] != x,
    decreases i,
{
    if exists|l: int| 0 <= l < i && s[l] == x {
        let l = choose|l: int| 0 <= l < i && s[l] == x;
        lemma_first_occurrence(s, x, l);
    } else {
        assert(forall|l: int| 0 <= l < i ==> s[l] != x);
    }
}

/// Toggling an id that is not expanded, and toggling it again, restores the list.
pub proof fn law_toggle_twice_restores(list: Seq<Seq<char>>, id: Seq<char>)
    requires
        !list.contains(id),
    ensures
        spec_toggle(spec_toggle(list, id), id) == list,
{
    let r = list.push(id);
    assert(r[list.len() as int] == id);
    assert(r.contains(id));
    let k = first_index(r, id);
    assert(0 <= list.len() < r.len() && r[list.len() as int] == id && forall|l: int|
        0 <= l < list.len() ==> r[l] != id);
    assert(k == list.len()) by {
        if k < list.len() {
            assert(r[k] == list[k]);
        }
    }
    assert(r.remove(k) =~= list);
}

} // verus!

verus! {

/// The i18n key of a navigation destination's title.
pub open spec fn nav_key(n: MainNav) -> Seq<char> {
    match n {
        MainNav::Chat => "nav.chat"@,
        MainNav::Unity => "nav.unity"@,
        MainNav::Scheduled => "nav.scheduled"@,
        MainNav::Plugins => "nav.plugins"@,
        MainNav::Sites => "nav.sites"@,
        MainNav::PullRequests => "nav.prs"@,
    }
}

impl MainNav {
    pub fn title(self) -> (r: &'static str)
        ensures
            r@ == spec_t(Language::Zh, nav_key(self)),
    {
        self.title_lang(Language::Zh)
    }

    pub fn title_lang(self, lang: Language) -> (r: &'static str)
        ensures
            r@ == spec_t(lang, nav_key(self)),
    {
        match self {
            MainNav::Chat => t(lang, "nav.chat"),
            MainNav::Unity => t(lang, "nav.unity"),
            MainNav::Scheduled => t(lang, "nav.scheduled"),
            MainNav::Plugins => t(lang, "nav.plugins"),
            MainNav::Sites => t(lang, "nav.sites"),
            MainNav::PullRequests => t(lang, "nav.prs"),
        }
    }

    pub fn placeholder_blurb(self) -> (r: &'static str)
        ensures
            r@ == match self {
                MainNav::Chat => ""@,
                MainNav::Unity => ""@,
                MainNav::Scheduled => "定时任务与提醒将出现在这里。当前版本尚未接入调度能力。"@,
                MainNav::Plugins => "启用或关闭本地扩展能力，例如 Unity 编辑器控制。"@,
                MainNav::Sites => "管理预览站点与部署入口。站点功能即将推出。"@,
                MainNav::PullRequests => "查看与处理拉取请求。Git 集成即将推出。"@,
            },
    {
        match self {
            MainNav::Chat => "",
            MainNav::Unity => "",
            MainNav::Scheduled => "定时任务与提醒将出现在这里。当前版本尚未接入调度能力。",
            MainNav::Plugins => "启用或关闭本地扩展能力，例如 Unity 编辑器控制。",
            MainNav::Sites => "管理预览站点与部署入口。站点功能即将推出。",
            MainNav::PullRequests => "查看与处理拉取请求。Git 集成即将推出。",
        }
    }
}

} // verus!

verus! {

/// The message key of the hint under the composer's send button: why it
/// cannot send (sign-in, busy, connecting, nothing to send) or how to send.
pub open spec fn send_hint_key(m: ModelView, can_send: bool, has_attachments: bool) -> Seq<char> {
    if can_send {
        "composer.send_hint"@
    } else if m.needs_login {
        "composer.need_login"@
    } else if m.busy {
        "composer.busy"@
    } else if !m.connected {
        "composer.connecting"@
    } else if spec_trim(m.draft).len() == 0 && !has_attachments {
        "composer.empty"@
    } else {
        "composer.cant_send"@
    }
}

impl AppModel {
    /// The hint under the composer's send button, in `lang`.
    pub fn composer_send_hint(&self, lang: Language, can_send: bool, has_attachments: bool) -> (r:
        &'static str)
        ensures
            r@ == spec_t(lang, send_hint_key(self@, can_send, has_attachments)),
    {
        if can_send {
            return t(lang, "composer.send_hint");
        }
        if self.needs_login {
            return t(lang, "composer.need_login");
        }
        if self.busy {
            return t(lang, "composer.busy");
        }
        if !self.connected {
            return t(lang, "composer.connecting");
        }
        if trim_vec(&chars_of(self.draft.as_str())).len() == 0 && !has_attachments {
            return t(lang, "composer.empty");
        }
        t(lang, "composer.cant_send")
    }
}

} // verus!

verus! {

/// The turn history never grows past `HISTORY_TURNS_MAX`: no agent event,
/// from either backend, takes it over the bound.
pub proof fn law_history_bounded(m: ModelView, e: AgentEvent)
    requires
        m.history_turns.len() <= HISTORY_TURNS_MAX,
    ensures
        spec_apply(m, e).history_turns.len() <= HISTORY_TURNS_MAX,
        spec_apply_zc(m, e).history_turns.len() <= HISTORY_TURNS_MAX,
{
    assert(spec_live(m).history_turns == m.history_turns);
}

} // verus!

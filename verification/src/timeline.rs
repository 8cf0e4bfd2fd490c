//! The chat timeline's items, their views, and copies of them.
use vstd::prelude::*;

use crate::text::{
    chars_of, eq_str, ends_with_vec, spec_is_whitespace, extend_vec, spec_ends_with, spec_starts_with, spec_trim,
    spec_utf8_len, spec_utf8_width, starts_with_vec, str_eq, string_of, trim_vec, utf8_width,
};

verus! {

#[derive(Debug, Clone, Copy, PartialEq, Eq, Structural)]
pub enum Role {
    User,
    Assistant,
    System,
}

/// Which backend produced a message (only used to tag bubbles).
#[derive(Debug, Clone, Copy, PartialEq, Eq, Structural)]
pub enum MessageSource {
    Grok,
    Zeroclaw,
}

/// Token bill of one turn.
#[derive(Debug, Clone, Copy, PartialEq, Eq, Structural)]
pub struct TokenUsage {
    pub input_tokens: u64,
    pub output_tokens: u64,
}

#[derive(Debug)]
pub struct ChatMessage {
    pub role: Role,
    pub text: String,
    /// Per-turn token bill (set on assistant messages when a turn completes).
    pub turn_usage: Option<TokenUsage>,
    pub source: MessageSource,
}

#[derive(Debug)]
pub struct ToolCard {
    pub id: String,
    pub title: String,
    pub kind: String,
    pub status: String,
    pub detail: String,
    pub open: bool,
}

#[derive(Debug)]
pub struct ThoughtCard {
    pub text: String,
    pub open: bool,
}

/// One entry of an agent plan.
#[derive(Debug)]
pub struct PlanEntryView {
    pub content: String,
    pub priority: String,
    pub status: String,
}

#[derive(Debug)]
pub struct PlanCard {
    pub entries: Vec<PlanEntryView>,
    pub open: bool,
}

#[derive(Debug)]
pub struct RouteCard {
    /// Fixed intent backend name: "coding" | "general"
    pub intent: String,
    /// Why we classified that way.
    pub intent_reason: String,
    pub matched_keyword: Option<String>,
    /// Intended target before degrade: "grok" | "zeroclaw"
    pub intended: String,
    /// Actual backend used: "grok" | "zeroclaw"
    pub actual: String,
    pub zc_status: String,
    pub steps: Vec<String>,
    pub degraded: bool,
    pub degrade_reason: Option<String>,
    pub open: bool,
}

#[derive(Debug)]
pub enum TimelineItem {
    Message(ChatMessage),
    Tool(ToolCard),
    Thought(ThoughtCard),
    Plan(PlanCard),
    Route(RouteCard),
}

// ───────────────────────── views ─────────────────────────

pub struct ChatMessageView {
    pub role: Role,
    pub text: Seq<char>,
    pub turn_usage: Option<TokenUsage>,
    pub source: MessageSource,
}

pub struct ToolCardView {
    pub id: Seq<char>,
    pub title: Seq<char>,
    pub kind: Seq<char>,
    pub status: Seq<char>,
    pub detail: Seq<char>,
    pub open: bool,
}

pub struct ThoughtCardView {
    pub text: Seq<char>,
    pub open: bool,
}

pub struct PlanCardView {
    pub entries: Seq<PlanEntryView>,
    pub open: bool,
}

pub struct RouteCardView {
    pub intent: Seq<char>,
    pub intent_reason: Seq<char>,
    pub matched_keyword: Option<String>,
    pub intended: Seq<char>,
    pub actual: Seq<char>,
    pub zc_status: Seq<char>,
    pub steps: Seq<String>,
    pub degraded: bool,
    pub degrade_reason: Option<String>,
    pub open: bool,
}

pub enum TimelineItemView {
    Message(ChatMessageView),
    Tool(ToolCardView),
    Thought(ThoughtCardView),
    Plan(PlanCardView),
    Route(RouteCardView),
}

impl View for RouteCard {
    type V = RouteCardView;

    open spec fn view(&self) -> RouteCardView {
        RouteCardView {
            intent: self.intent@,
            intent_reason: self.intent_reason@,
            matched_keyword: self.matched_keyword,
            intended: self.intended@,
            actual: self.actual@,
            zc_status: self.zc_status@,
            steps: self.steps@,
            degraded: self.degraded,
            degrade_reason: self.degrade_reason,
            open: self.open,
        }
    }
}

impl View for ChatMessage {
    type V = ChatMessageView;

    open spec fn view(&self) -> ChatMessageView {
        ChatMessageView {
            role: self.role,
            text: self.text@,
            turn_usage: self.turn_usage,
            source: self.source,
        }
    }
}

impl View for ToolCard {
    type V = ToolCardView;

    open spec fn view(&self) -> ToolCardView {
        ToolCardView {
            id: self.id@,
            title: self.title@,
            kind: self.kind@,
            status: self.status@,
            detail: self.detail@,
            open: self.open,
        }
    }
}

impl View for ThoughtCard {
    type V = ThoughtCardView;

    open spec fn view(&self) -> ThoughtCardView {
        ThoughtCardView { text: self.text@, open: self.open }
    }
}

impl View for PlanCard {
    type V = PlanCardView;

    open spec fn view(&self) -> PlanCardView {
        PlanCardView { entries: self.entries@, open: self.open }
    }
}

impl View for TimelineItem {
    type V = TimelineItemView;

    open spec fn view(&self) -> TimelineItemView {
        match self {
            TimelineItem::Message(m) => TimelineItemView::Message(m@),
            TimelineItem::Tool(t) => TimelineItemView::Tool(t@),
            TimelineItem::Thought(t) => TimelineItemView::Thought(t@),
            TimelineItem::Plan(p) => TimelineItemView::Plan(p@),
            TimelineItem::Route(r) => TimelineItemView::Route(r@),
        }
    }
}

/// The view of every item of a timeline.
#[verifier::opaque]
pub open spec fn items_view(items: Seq<TimelineItem>) -> Seq<TimelineItemView> {
    items.map_values(|i: TimelineItem| i@)
}

pub broadcast proof fn lemma_items_view(items: Seq<TimelineItem>)
    ensures
        #![trigger items_view(items)]
        items_view(items).len() == items.len(),
        forall|i: int| 0 <= i < items.len() ==> #[trigger] items_view(items)[i] == items[i]@,
{
    reveal(items_view);
}

// ───────────────────────── copies ─────────────────────────

impl Clone for PlanEntryView {
    fn clone(&self) -> (r: Self)
        ensures
            r == *self,
    {
        PlanEntryView {
            content: self.content.clone(),
            priority: self.priority.clone(),
            status: self.status.clone(),
        }
    }
}

/// A copy of an optional string.
pub fn clone_opt_string(s: &Option<String>) -> (r: Option<String>)
    ensures
        r == *s,
{
    match s {
        Some(x) => Some(x.clone()),
        None => None,
    }
}

/// A copy of a vector of strings.
pub fn clone_strings(v: &Vec<String>) -> (r: Vec<String>)
    ensures
        r@ == v@,
{
    let mut out: Vec<String> = Vec::new();
    let mut i: usize = 0;
    while i < v.len()
        invariant
            i <= v.len(),
            out@ == v@.subrange(0, i as int),
        decreases v.len() - i,
    {
        out.push(v[i].clone());
        i = i + 1;
        assert(out@ =~= v@.subrange(0, i as int));
    }
    assert(v@.subrange(0, v.len() as int) =~= v@);
    out
}

impl Clone for ChatMessage {
    fn clone(&self) -> (r: Self)
        ensures
            r == *self,
    {
        ChatMessage {
            role: self.role,
            text: self.text.clone(),
            turn_usage: self.turn_usage,
            source: self.source,
        }
    }
}

impl Clone for ToolCard {
    fn clone(&self) -> (r: Self)
        ensures
            r == *self,
    {
        ToolCard {
            id: self.id.clone(),
            title: self.title.clone(),
            kind: self.kind.clone(),
            status: self.status.clone(),
            detail: self.detail.clone(),
            open: self.open,
        }
    }
}

impl Clone for ThoughtCard {
    fn clone(&self) -> (r: Self)
        ensures
            r == *self,
    {
        ThoughtCard { text: self.text.clone(), open: self.open }
    }
}

impl Clone for PlanCard {
    fn clone(&self) -> (r: Self)
        ensures
            r@ == self@,
    {
        let mut entries: Vec<PlanEntryView> = Vec::new();
        let mut i: usize = 0;
        while i < self.entries.len()
            invariant
                i <= self.entries.len(),
                entries@ == self.entries@.subrange(0, i as int),
            decreases self.entries.len() - i,
        {
            entries.push(self.entries[i].clone());
            i = i + 1;
            assert(entries@ =~= self.entries@.subrange(0, i as int));
        }
        assert(self.entries@.subrange(0, self.entries.len() as int) =~= self.entries@);
        PlanCard { entries, open: self.open }
    }
}

impl Clone for RouteCard {
    fn clone(&self) -> (r: Self)
        ensures
            r@ == self@,
    {
        RouteCard {
            intent: self.intent.clone(),
            intent_reason: self.intent_reason.clone(),
            matched_keyword: clone_opt_string(&self.matched_keyword),
            intended: self.intended.clone(),
            actual: self.actual.clone(),
            zc_status: self.zc_status.clone(),
            steps: clone_strings(&self.steps),
            degraded: self.degraded,
            degrade_reason: clone_opt_string(&self.degrade_reason),
            open: self.open,
        }
    }
}

impl Clone for TimelineItem {
    fn clone(&self) -> (r: Self)
        ensures
            r@ == self@,
    {
        match self {
            TimelineItem::Message(m) => TimelineItem::Message(m.clone()),
            TimelineItem::Tool(t) => TimelineItem::Tool(t.clone()),
            TimelineItem::Thought(t) => TimelineItem::Thought(t.clone()),
            TimelineItem::Plan(p) => TimelineItem::Plan(p.clone()),
            TimelineItem::Route(r) => TimelineItem::Route(r.clone()),
        }
    }
}

/// A copy of a timeline.
pub fn clone_items(v: &Vec<TimelineItem>) -> (r: Vec<TimelineItem>)
    ensures
        items_view(r@) == items_view(v@),
{
    let mut out: Vec<TimelineItem> = Vec::new();
    let mut i: usize = 0;
    while i < v.len()
        invariant
            i <= v.len(),
            out.len() == i,
            forall|j: int| 0 <= j < i ==> (#[trigger] out@[j])@ == v@[j]@,
        decreases v.len() - i,
    {
        out.push(v[i].clone());
        i = i + 1;
    }
    reveal(items_view);
    assert(items_view(out@) =~= items_view(v@));
    out
}

pub open spec fn opt_view(o: Option<String>) -> Option<Seq<char>> {
    match o {
        Some(s) => Some(s@),
        None => None,
    }
}

#[verifier::opaque]
pub open spec fn strings_view(v: Seq<String>) -> Seq<Seq<char>> {
    v.map_values(|s: String| s@)
}

pub broadcast proof fn lemma_strings_view(v: Seq<String>)
    ensures
        #![trigger strings_view(v)]
        strings_view(v).len() == v.len(),
        forall|i: int| 0 <= i < v.len() ==> #[trigger] strings_view(v)[i] == v[i]@,
{
    reveal(strings_view);
}


} // verus!

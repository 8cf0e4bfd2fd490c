use bony_build::model::merge_stream_text;

#[test]
fn keeps_normal_short_deltas() {
    let mut text = "ha".to_string();
    merge_stream_text(&mut text, "ha");
    assert_eq!(text, "haha");
}

#[test]
fn drops_repeated_long_chunks() {
    let chunk = "这是一段足够长的流式响应，用来验证同一个 ACP 消息块不会被重复渲染。";
    let mut text = chunk.to_string();
    merge_stream_text(&mut text, chunk);
    assert_eq!(text, chunk);
}

#[test]
fn accepts_cumulative_snapshots_without_appending_them() {
    let first = "This is a sufficiently long partial assistant response.";
    let full = format!("{first} And this is the completed suffix.");
    let mut text = first.to_string();
    merge_stream_text(&mut text, &full);
    assert_eq!(text, full);
}

#[test]
fn redelivered_chunk_is_dropped_again() {
    let chunk = "a chunk that is long enough to count as a redelivery!";
    let mut text = format!("start {chunk}");
    merge_stream_text(&mut text, chunk);
    merge_stream_text(&mut text, chunk);
    assert_eq!(text, format!("start {chunk}"));
}

#[test]
fn empty_delta_changes_nothing() {
    let mut text = "abc".to_string();
    merge_stream_text(&mut text, "");
    assert_eq!(text, "abc");
}

use bony_build::i18n::Language;
use bony_build::model::AppModel;

#[test]
fn send_hint_explains_why() {
    let mut m = AppModel::new("/p".into(), Vec::new(), Vec::new(), None, "Ann".into(), Vec::new());
    assert_eq!(m.composer_send_hint(Language::En, true, false), "Send · Enter");
    m.connected = true;
    m.needs_login = true;
    assert_eq!(m.composer_send_hint(Language::En, false, false), "Sign in or configure an API key first");
    m.needs_login = false;
    m.draft = "  ".into();
    let empty = m.composer_send_hint(Language::Zh, false, false);
    assert_eq!(empty, bony_build::i18n::t(Language::Zh, "composer.empty"));
}

#[test]
fn initials_and_project_label() {
    let m = AppModel::new("/p".into(), Vec::new(), Vec::new(), None, " ann lee ".into(), Vec::new());
    assert_eq!(m.initials(), "AN");
    assert_eq!(AppModel::project_label("/home/u/proj"), "proj");
}

#[test]
fn toggling_history_twice_restores() {
    let mut m = AppModel::new("/p".into(), Vec::new(), Vec::new(), None, "x".into(), Vec::new());
    assert!(!m.is_history_expanded("t1"));
    m.toggle_history_expanded("t1");
    assert!(m.is_history_expanded("t1"));
    m.toggle_history_expanded("t1");
    assert!(!m.is_history_expanded("t1"));
}

#[test]
fn new_task_starts_empty() {
    let mut m = AppModel::new("/p".into(), Vec::new(), Vec::new(), None, "x".into(), Vec::new());
    m.push_user("hello there".into());
    assert!(!m.is_empty_chat());
    m.new_task();
    assert!(m.is_empty_chat());
    assert_eq!(m.task_title, "新对话");
}

use bony_build::model::{AgentEvent, TurnRecord};
use bony_build::timeline::{PlanEntryView, Role, TimelineItem, TokenUsage};

fn fresh() -> AppModel {
    AppModel::new("/p".into(), Vec::new(), Vec::new(), None, "x".into(), Vec::new())
}

#[test]
fn assistant_deltas_merge_into_one_message() {
    let mut m = fresh();
    m.push_user("hi".into());
    m.apply(AgentEvent::AssistantDelta("Hel".into()));
    m.apply(AgentEvent::AssistantDelta("lo".into()));
    assert_eq!(m.timeline.len(), 2);
    match &m.timeline[1] {
        TimelineItem::Message(msg) => {
            assert_eq!(msg.role, Role::Assistant);
            assert_eq!(msg.text, "Hello");
        }
        _ => panic!("expected an assistant message"),
    }
    assert!(m.busy);
    assert_eq!(m.status, "Working…");
}

#[test]
fn tool_updates_land_on_their_card() {
    let mut m = fresh();
    m.apply(AgentEvent::ToolStart { id: "t1".into(), title: "Read".into(), kind: "read".into(), detail: String::new() });
    m.apply(AgentEvent::ToolUpdate { id: "t1".into(), status: "Completed".into(), kind: String::new(), detail: "ok".into() });
    m.apply(AgentEvent::ToolUpdate { id: "t2".into(), status: "Failed".into(), kind: String::new(), detail: String::new() });
    assert_eq!(m.timeline.len(), 2);
    match &m.timeline[0] {
        TimelineItem::Tool(c) => {
            assert_eq!(c.title, "Read");
            assert_eq!(c.kind, "read");
            assert_eq!(c.status, "Completed");
            assert_eq!(c.detail, "ok");
        }
        _ => panic!("expected a tool card"),
    }
    match &m.timeline[1] {
        TimelineItem::Tool(c) => assert_eq!(c.title, "Tool"),
        _ => panic!("expected a tool card"),
    }
}

#[test]
fn plan_updates_replace_the_current_plan() {
    let mut m = fresh();
    m.push_user("do it".into());
    let entry = |c: &str| PlanEntryView { content: c.into(), priority: "high".into(), status: "pending".into() };
    m.apply(AgentEvent::PlanUpdate { entries: vec![entry("a")] });
    m.apply(AgentEvent::PlanUpdate { entries: vec![entry("a"), entry("b")] });
    assert_eq!(m.timeline.len(), 2);
    match &m.timeline[1] {
        TimelineItem::Plan(p) => assert_eq!(p.entries.len(), 2),
        _ => panic!("expected a plan"),
    }
}

#[test]
fn turn_done_records_usage_and_titles_the_task() {
    let mut m = fresh();
    m.push_user("explain the build".into());
    m.apply(AgentEvent::AssistantDelta("It uses cargo.".into()));
    let record = TurnRecord {
        id: "r1".into(),
        session_id: "s".into(),
        user_text: "explain the build".into(),
        assistant_text: "It uses cargo.".into(),
        tool_titles: Vec::new(),
        usage_delta: TokenUsage { input_tokens: 10, output_tokens: 5 },
    };
    m.apply(AgentEvent::TurnDone { record });
    assert!(!m.busy);
    assert_eq!(m.status, "Ready");
    assert_eq!(m.history_turns.len(), 1);
    match &m.timeline[1] {
        TimelineItem::Message(msg) => {
            assert_eq!(msg.turn_usage, Some(TokenUsage { input_tokens: 10, output_tokens: 5 }))
        }
        _ => panic!("expected an assistant message"),
    }
}

#[test]
fn errors_become_system_messages() {
    let mut m = fresh();
    m.apply(AgentEvent::Error("boom".into()));
    assert_eq!(m.status, "Error");
    match &m.timeline[0] {
        TimelineItem::Message(msg) => {
            assert_eq!(msg.role, Role::System);
            assert_eq!(msg.text, "boom");
        }
        _ => panic!("expected a message"),
    }
}

#[test]
fn history_keeps_newest_turns() {
    let mut m = fresh();
    for i in 0..205 {
        let record = TurnRecord {
            id: format!("r{i}"),
            session_id: "s".into(),
            user_text: String::new(),
            assistant_text: String::new(),
            tool_titles: Vec::new(),
            usage_delta: TokenUsage { input_tokens: 1, output_tokens: 1 },
        };
        m.apply(AgentEvent::TurnDone { record });
    }
    assert_eq!(m.history_turns.len(), 200);
    assert_eq!(m.history_turns[0].id, "r5");
}

use bony_build::timeline::MessageSource;

#[test]
fn grok_text_does_not_join_a_zeroclaw_message() {
    let mut m = fresh();
    m.push_user("hi".into());
    m.apply_zc(AgentEvent::AssistantDelta("Zero".into()));
    m.apply(AgentEvent::AssistantDelta("Grok".into()));
    assert_eq!(m.timeline.len(), 3);
    match (&m.timeline[1], &m.timeline[2]) {
        (TimelineItem::Message(a), TimelineItem::Message(b)) => {
            assert_eq!(a.source, MessageSource::Zeroclaw);
            assert_eq!(a.text, "Zero");
            assert_eq!(b.source, MessageSource::Grok);
            assert_eq!(b.role, Role::Assistant);
            assert_eq!(b.text, "Grok");
        }
        _ => panic!("expected two assistant messages"),
    }
}

#[test]
fn initials_of_ascii_names() {
    let name = |n: &str| AppModel::new("/p".into(), Vec::new(), Vec::new(), None, n.into(), Vec::new());
    assert_eq!(name("  alice bob ").initials(), "AL");
    assert_eq!(name("").initials(), "BB");
    assert_eq!(name("z").initials(), "ZB");
}

#[test]
fn project_labels() {
    assert_eq!(AppModel::project_label("/home/u/proj"), "proj");
    assert_eq!(AppModel::project_label("/home/u/proj/"), "proj");
    assert_eq!(AppModel::project_label("/"), "/");
    assert_eq!(AppModel::project_label(""), "");
}

#[test]
fn several_history_views_then_live_restores_the_chat() {
    let mut m = fresh();
    m.push_user("live question".into());
    let live_len = m.timeline.len();
    for sid in ["s1", "s2", "s3"] {
        m.load_task_view(sid);
        assert!(m.is_viewing_history());
    }
    m.return_to_live();
    assert!(!m.is_viewing_history());
    assert_eq!(m.timeline.len(), live_len);
    assert!(m.live_timeline.is_empty());
    match &m.timeline[0] {
        TimelineItem::Message(msg) => assert_eq!(msg.text, "live question"),
        _ => panic!("expected the live user message"),
    }
}

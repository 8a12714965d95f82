use omp_visualizer::api::cache;
use omp_visualizer::api::cache::TimelineReply;
use omp_visualizer::api::export;
use omp_visualizer::api::pages;
use omp_visualizer::api::payloads;
use omp_visualizer::api::payloads::LineHit;
use omp_visualizer::api::search;
use omp_visualizer::models::AgentMessage;
use omp_visualizer::models::ContentBlock;
use omp_visualizer::models::ConversationExport;
use omp_visualizer::models::ConversationSummary;
use omp_visualizer::models::Message;
use omp_visualizer::models::MessageEntry;
use omp_visualizer::models::NavAddress;
use omp_visualizer::models::PartState;
use omp_visualizer::models::RawJson;
use omp_visualizer::models::SessionEntry;
use omp_visualizer::models::SessionHeader;
use omp_visualizer::models::ThinkingLevelChangeEntry;
use omp_visualizer::models::TitleEntry;
use omp_visualizer::paths;
use omp_visualizer::session::parser::CapsuleSeed;
use omp_visualizer::session::parser::ParsedSession;

fn summary(id: &str, title: Option<&str>, dir: Option<&str>) -> ConversationSummary {
    ConversationSummary {
        id: id.to_string(),
        title: title.map(|t| t.to_string()),
        directory: dir.map(|d| d.to_string()),
        git_branch: None,
        version: None,
        project_id: None,
        parent_id: None,
        time_created: None,
        time_updated: None,
        model: None,
        message_count: 0,
        subagent_count: 0,
        first_problem: None,
    }
}

fn text(t: &str) -> ContentBlock {
    ContentBlock::Text { text: t.to_string() }
}

fn message_entry(id: &str, role: &str, content: Vec<ContentBlock>) -> MessageEntry {
    MessageEntry {
        id: id.to_string(),
        parent_id: None,
        timestamp: "2026-01-01T00:00:00Z".to_string(),
        message: AgentMessage {
            role: role.to_string(),
            content,
            usage: None,
            provider: None,
            model: None,
            api: None,
            timestamp: Some(42),
            tool_call_id: None,
            tool_name: None,
            is_error: None,
        },
    }
}

fn thinking_change(id: &str) -> SessionEntry {
    SessionEntry::ThinkingLevelChange(ThinkingLevelChangeEntry {
        id: id.to_string(),
        parent_id: None,
        timestamp: "2026-01-01T00:00:01Z".to_string(),
        thinking_level: "high".to_string(),
        configured: None,
    })
}

fn header() -> SessionHeader {
    SessionHeader {
        version: Some(3),
        id: "abc".to_string(),
        timestamp: "2026-01-01T00:00:00Z".to_string(),
        cwd: "/home/u/proj".to_string(),
        title: Some("Refactor".to_string()),
        title_source: None,
        parent_session: Some("parent-1".to_string()),
    }
}

fn parsed(entries: Vec<SessionEntry>) -> ParsedSession {
    let line_numbers = (0..entries.len()).map(|k| k as i64 + 3).collect();
    ParsedSession {
        header: header(),
        entries,
        line_numbers,
        file_path: "/root/.omp/agent/sessions/-proj/abc.jsonl".to_string(),
        jsonl_file: "-proj/abc.jsonl".to_string(),
    }
}

fn nav(line: i64) -> NavAddress {
    NavAddress {
        session_id: "abc".to_string(),
        jsonl_file: "f.jsonl".to_string(),
        line_number: line,
        event_index: 0,
        scope: "main".to_string(),
        agent_path: "main".to_string(),
        element_type: "event".to_string(),
        view: "rendered".to_string(),
        message_id: None,
        content_index: None,
        tool_use_id: None,
        json_pointer: None,
        problem_id: None,
    }
}

fn rendered(id: &str, texts: &[&str], line: i64) -> Message {
    let entry = message_entry(id, "assistant", texts.iter().map(|t| text(t)).collect());
    export::convert_message(&entry, Some(nav(line)))
}

fn export_of(messages: Vec<Message>, agent_type: Option<&str>, subs: Vec<ConversationExport>) -> ConversationExport {
    ConversationExport {
        summary: summary("abc", None, None),
        messages,
        subagent_transcripts: subs,
        task_part_id: None,
        task_message_id: None,
        parent_task_nav: None,
        parent_result_nav: None,
        previous_sibling_nav: None,
        next_sibling_nav: None,
        relationship_hint: None,
        relationship_basis: None,
        agent_type: agent_type.map(|a| a.to_string()),
        agent_description: None,
        raw_events: Vec::new(),
        parser_diagnostics: Vec::new(),
        problem_flags: Vec::new(),
        nav_index: Vec::new(),
    }
}

fn raw_events_of(ids: &[&str]) -> Vec<omp_visualizer::models::RawEvent> {
    let entries = ids.iter().map(|i| thinking_change(i)).collect();
    export::conversation_export_from_parsed(parsed(entries), "abc", "/h", "/t", "main", "main", Vec::new()).raw_events
}

#[test]
fn dashboard_fallback_lists_every_session() {
    let sessions = vec![summary("abc", Some("Fix"), Some("/home/u/p")), summary("x", None, None)];
    let html = pages::dashboard_fallback(&sessions);
    let mut expected = String::from(r#"<!doctype html><html><head><meta charset="UTF-8"><title>OMP Visualizer</title>
<link rel="stylesheet" href="/static/css/base.css"></head><body><main class="dashboard-shell">
<header class="app-header"><h1>OMP Visualizer</h1></header>
<section><ul class="session-list">"#);
    expected.push_str(&format!(r#"<li class="session-card"><a href="/conversation/omp/{}"><h3>{}</h3><p>{}</p></a></li>"#, "abc", "Fix", "/home/u/p"));
    expected.push_str(&format!(r#"<li class="session-card"><a href="/conversation/omp/{}"><h3>{}</h3><p>{}</p></a></li>"#, "x", "Untitled", ""));
    expected.push_str("</ul></section></main></body></html>");
    assert_eq!(html, expected);
}

#[test]
fn dashboard_fallback_without_sessions() {
    let html = pages::dashboard_fallback(&[]);
    assert_eq!(html, format!("{}</ul></section></main></body></html>", r#"<!doctype html><html><head><meta charset="UTF-8"><title>OMP Visualizer</title>
<link rel="stylesheet" href="/static/css/base.css"></head><body><main class="dashboard-shell">
<header class="app-header"><h1>OMP Visualizer</h1></header>
<section><ul class="session-list">"#));
}

#[test]
fn conversation_page_fallback_shell() {
    let html = pages::conversation_page_fallback(&summary("s-9", None, None));
    assert_eq!(html, format!(r#"<!doctype html><html><head><meta charset="UTF-8">
<title>{} | OMP Visualizer</title>
<link rel="stylesheet" href="/static/css/base.css">
</head><body>
<div class="workbench-shell dual-workbench"
     data-testid="conversation-workbench"
     data-agent="omp"
     data-session-id="{}"
     data-slim-payload="true"
     data-default-layout="graph"
     data-layout="graph">
<header class="command-bar">
  <a class="back-link" href="/">Sessions</a>
  <h1>{}</h1>
</header>
<main id="transcript" class="transcript-surface">
  <section id="graphLayout" class="timeline-layout">
    <div id="graphViewport" class="timeline-viewport">
      <div id="sessionLoadingSkeleton" class="timeline-boot-skeleton">
        <div class="timeline-boot-skeleton-header">
          <div class="timeline-boot-status">Loading session data…</div>
        </div>
      </div>
      <div id="graphSizer" class="timeline-sizer"></div>
      <div id="graphLayer" class="timeline-layer">
        <svg id="graphEdges" class="timeline-connectors"></svg>
        <div id="graphLanes" class="timeline-tracks"></div>
        <div id="graphCapsules" class="timeline-blocks"></div>
      </div>
    </div>
  </section>
</main>
</div>
<div id="timelineDetailPanel" class="timeline-detail-dock hidden"></div>
<script src="/static/js/text_utils.js"></script>
<script src="/static/js/timeline_renderer.js"></script>
<script src="/static/js/opencode_renderer.js"></script>
<script src="/static/js/conversation.js"></script>
</body></html>"#, "Untitled", "s-9", "Untitled"));
    let titled = pages::conversation_page_fallback(&summary("s-9", Some("Deploy"), None));
    assert_eq!(titled, format!(r#"<!doctype html><html><head><meta charset="UTF-8">
<title>{} | OMP Visualizer</title>
<link rel="stylesheet" href="/static/css/base.css">
</head><body>
<div class="workbench-shell dual-workbench"
     data-testid="conversation-workbench"
     data-agent="omp"
     data-session-id="{}"
     data-slim-payload="true"
     data-default-layout="graph"
     data-layout="graph">
<header class="command-bar">
  <a class="back-link" href="/">Sessions</a>
  <h1>{}</h1>
</header>
<main id="transcript" class="transcript-surface">
  <section id="graphLayout" class="timeline-layout">
    <div id="graphViewport" class="timeline-viewport">
      <div id="sessionLoadingSkeleton" class="timeline-boot-skeleton">
        <div class="timeline-boot-skeleton-header">
          <div class="timeline-boot-status">Loading session data…</div>
        </div>
      </div>
      <div id="graphSizer" class="timeline-sizer"></div>
      <div id="graphLayer" class="timeline-layer">
        <svg id="graphEdges" class="timeline-connectors"></svg>
        <div id="graphLanes" class="timeline-tracks"></div>
        <div id="graphCapsules" class="timeline-blocks"></div>
      </div>
    </div>
  </section>
</main>
</div>
<div id="timelineDetailPanel" class="timeline-detail-dock hidden"></div>
<script src="/static/js/text_utils.js"></script>
<script src="/static/js/timeline_renderer.js"></script>
<script src="/static/js/opencode_renderer.js"></script>
<script src="/static/js/conversation.js"></script>
</body></html>"#, "Deploy", "s-9", "Deploy"));
}

#[test]
fn initial_layout_choices() {
    assert_eq!(pages::initial_layout(Some("waterfall")), "reader");
    assert_eq!(pages::initial_layout(Some("focus")), "reader");
    assert_eq!(pages::initial_layout(Some("reader")), "reader");
    assert_eq!(pages::initial_layout(Some("timeline")), "graph");
    assert_eq!(pages::initial_layout(Some("other")), "graph");
    assert_eq!(pages::initial_layout(None), "graph");
}

#[test]
fn find_session_summary_first_match() {
    let sessions = vec![summary("a", None, None), summary("b", None, None), summary("b", Some("second"), None)];
    assert_eq!(pages::find_session_summary(&sessions, "b"), Some(1));
    assert_eq!(pages::find_session_summary(&sessions, "z"), None);
}

#[test]
fn tool_result_text_reads_string_text_members() {
    let entry = message_entry(
        "m2",
        "user",
        vec![ContentBlock::ToolResult {
            tool_use_id: "call_9".to_string(),
            content: Some(RawJson { text: r#"["x",{"text":5},{"text":"one","type":"text"},[1],{"kind":"text"},{"text":"two"}]"#.to_string() }),
            is_error: false,
        }],
    );
    let msg = export::convert_message(&entry, None);
    assert_eq!(msg.parts.len(), 1);
    assert_eq!(msg.parts[0].text.as_deref(), Some("one\ntwo"));
    let empty = message_entry(
        "m3",
        "user",
        vec![ContentBlock::ToolResult { tool_use_id: "c".to_string(), content: Some(RawJson { text: "[]".to_string() }), is_error: false }],
    );
    assert_eq!(export::convert_message(&empty, None).parts[0].text.as_deref(), Some(""));
}

#[test]
fn convert_message_renders_parts() {
    let mut entry = message_entry(
        "m1",
        "assistant",
        vec![
            text("hello"),
            ContentBlock::Thinking { thinking: "hmm".to_string(), thinking_signature: None },
            ContentBlock::ToolCall {
                id: "call_1".to_string(),
                name: "read".to_string(),
                arguments: RawJson { text: "{\"path\":\"a\"}".to_string() },
                partial_args: None,
                stream_index: None,
            },
            ContentBlock::ToolResult {
                tool_use_id: "call_1".to_string(),
                content: Some(RawJson { text: r#"[{"type":"text","text":"a"},{"type":"image"},{"text":"b"}]"#.to_string() }),
                is_error: false,
            },
            ContentBlock::ToolResult {
                tool_use_id: "call_2".to_string(),
                content: Some(RawJson { text: "\"plain\"".to_string() }),
                is_error: true,
            },
            ContentBlock::ToolResult {
                tool_use_id: "call_3".to_string(),
                content: Some(RawJson { text: "{\"x\":1}".to_string() }),
                is_error: false,
            },
            ContentBlock::Image { source: RawJson { text: "{}".to_string() } },
        ],
    );
    entry.message.model = Some("gpt".to_string());
    let msg = export::convert_message(&entry, Some(nav(7)));
    assert_eq!(msg.id.as_deref(), Some("m1"));
    assert_eq!(msg.role, "assistant");
    let model = msg.model.as_ref().unwrap();
    assert_eq!(model.provider_id.as_deref(), Some(""));
    assert_eq!(model.model_id.as_deref(), Some("gpt"));
    assert_eq!(msg.model_id.as_deref(), Some("gpt"));
    assert_eq!(msg.time_created, Some(42));
    assert_eq!(msg.parts.len(), 7);
    assert_eq!(msg.parts[0].id.as_deref(), Some("part-0"));
    assert_eq!(msg.parts[0].part_type, "text");
    assert_eq!(msg.parts[0].text.as_deref(), Some("hello"));
    assert_eq!(msg.parts[1].part_type, "reasoning");
    assert_eq!(msg.parts[1].text.as_deref(), Some("hmm"));
    assert_eq!(msg.parts[2].part_type, "tool");
    assert_eq!(msg.parts[2].tool.as_deref(), Some("read"));
    match &msg.parts[2].state {
        Some(PartState::Call { id, name, input }) => {
            assert_eq!(id, "call_1");
            assert_eq!(name, "read");
            assert_eq!(input.text, "{\"path\":\"a\"}");
        },
        _ => panic!("Expected a call state"),
    }
    let part_nav = msg.parts[2].nav.as_ref().unwrap();
    assert_eq!(part_nav.content_index, Some(2));
    assert_eq!(part_nav.element_type, "part");
    assert_eq!(part_nav.tool_use_id.as_deref(), Some("call_1"));
    assert_eq!(part_nav.line_number, 7);
    assert_eq!(msg.parts[3].part_type, "tool_result");
    assert_eq!(msg.parts[3].text.as_deref(), Some("a\nb"));
    assert_eq!(msg.parts[4].text.as_deref(), Some("plain"));
    match &msg.parts[4].state {
        Some(PartState::Result { tool_use_id, is_error }) => {
            assert_eq!(tool_use_id, "call_2");
            assert!(*is_error);
        },
        _ => panic!("Expected a result state"),
    }
    assert_eq!(msg.parts[5].text, None);
    assert_eq!(msg.parts[6].part_type, "image");
    assert_eq!(msg.parts[6].id.as_deref(), Some("part-6"));
    assert_eq!(msg.nav.as_ref().unwrap().element_type, "event");
}

#[test]
fn export_addresses_lines_and_events() {
    let entries = vec![
        SessionEntry::Message(message_entry("m1", "user", vec![text("Hi")])),
        thinking_change("t1"),
        SessionEntry::Title(TitleEntry {
            v: None,
            title: "T".to_string(),
            source: None,
            updated_at: None,
            pad: None,
            id: None,
            parent_id: None,
            timestamp: None,
        }),
        SessionEntry::Message(message_entry("m2", "assistant", vec![text("Yo")])),
    ];
    let e = export::conversation_export_from_parsed(parsed(entries), "abc", "/home/u", "/tmp", "main", "main", Vec::new());
    assert_eq!(e.summary.id, "abc");
    assert_eq!(e.summary.title.as_deref(), Some("Refactor"));
    assert_eq!(e.summary.directory.as_deref(), Some("/home/u/proj"));
    assert_eq!(e.summary.version.as_deref(), Some("3"));
    assert_eq!(e.summary.parent_id.as_deref(), Some("parent-1"));
    assert_eq!(e.summary.time_created, Some(1767225600000));
    assert_eq!(e.summary.model.as_deref(), Some("Unknown"));
    assert_eq!(e.summary.message_count, 4);
    assert_eq!(e.messages.len(), 2);
    let n0 = e.messages[0].nav.as_ref().unwrap();
    assert_eq!((n0.line_number, n0.event_index), (3, 0));
    assert_eq!(n0.jsonl_file, "-proj/abc.jsonl");
    let n1 = e.messages[1].nav.as_ref().unwrap();
    assert_eq!((n1.line_number, n1.event_index), (6, 3));
    assert_eq!(e.raw_events.len(), 2);
    assert_eq!(e.raw_events[0].id, "t1");
    assert_eq!((e.raw_events[0].nav.line_number, e.raw_events[0].nav.event_index), (4, 1));
    assert_eq!(e.raw_events[1].id, "");
    assert_eq!(e.agent_type.as_deref(), Some("main"));
}

#[test]
fn export_and_timeline_count_the_same_events() {
    let entries = vec![
        SessionEntry::Message(message_entry("m1", "user", vec![text("Hi")])),
        thinking_change("t1"),
        SessionEntry::Message(message_entry("m2", "assistant", vec![text("Yo")])),
    ];
    let e = export::conversation_export_from_parsed(parsed(entries.clone()), "abc", "/h", "/t", "main", "main", Vec::new());
    let p = payloads::timeline_payload(parsed(entries), "abc", Vec::new());
    assert_eq!(e.messages.len() + e.raw_events.len(), p.capsule_seeds.len());
}

#[test]
fn slim_and_track_payloads() {
    let entries = vec![SessionEntry::Message(message_entry("m1", "user", vec![text("Hi")])), thinking_change("t1")];
    let sub = export::conversation_export_from_parsed(parsed(entries), "abc-task", "/home/u", "/tmp", "task", "sub", Vec::new());
    let main = export::conversation_export_from_parsed(parsed(vec![thinking_change("t2")]), "abc", "/home/u", "/tmp", "main", "main", vec![sub]);
    let slim = payloads::slim_export(main);
    assert_eq!(slim.raw_events.len(), 1);
    assert_eq!(slim.raw_events[0].event_type, "thinking_level_change");
    assert_eq!(slim.raw_events[0].subtype, "");
    assert_eq!(slim.raw_events[0].timestamp.as_deref(), Some("2026-01-01T00:00:01Z"));
    assert_eq!(slim.subagent_transcripts.len(), 1);
    let d = &slim.subagent_transcripts[0];
    assert_eq!(d.agent_type.as_deref(), Some("task"));
    assert_eq!((d.message_count, d.raw_event_count, d.problem_flag_count, d.capsule_count), (1, 1, 0, 2));

    let track = payloads::single_track_payload(
        export::conversation_export_from_parsed(parsed(vec![thinking_change("t3")]), "abc", "/home/u", "/tmp", "main", "main", Vec::new()),
        "main",
    );
    assert_eq!(track.agent_path, "main");
    assert_eq!(track.raw_events[0].id, "t3");
    assert_eq!(track.raw_events[0].nav.line_number, 3);
    assert_eq!(track.agent_type.as_deref(), Some("main"));
}

#[test]
fn line_lookup_prefers_messages() {
    let mut e = export_of(vec![rendered("m1", &["a"], 3), rendered("m2", &["b"], 4)], Some("main"), Vec::new());
    e.raw_events = raw_events_of(&["t1", "t2"]);
    match payloads::find_line_hit(e, "main", 4) {
        Some(LineHit::Message(m)) => assert_eq!(m.id.as_deref(), Some("m2")),
        _ => panic!("Expected the message on line 4"),
    }
    let mut e2 = export_of(vec![rendered("m1", &["a"], 3)], Some("main"), Vec::new());
    e2.raw_events = raw_events_of(&["t1", "t2"]);
    match payloads::find_line_hit(e2, "main", 4) {
        Some(LineHit::RawEvent(r)) => assert_eq!(r.id, "t2"),
        _ => panic!("Expected the raw event on line 4"),
    }
    let sub = export_of(vec![rendered("s1", &["a"], 9)], Some("task"), Vec::new());
    let e3 = export_of(Vec::new(), Some("main"), vec![sub]);
    match payloads::find_line_hit(e3, "task", 9) {
        Some(LineHit::Message(m)) => assert_eq!(m.id.as_deref(), Some("s1")),
        _ => panic!("Expected the subagent message"),
    }
    let e4 = export_of(Vec::new(), Some("main"), Vec::new());
    assert!(payloads::find_line_hit(e4, "nope", 1).is_none());
}

#[test]
fn search_reports_snippets() {
    let long = format!("{}Needle here{}", "x".repeat(50), "y".repeat(80));
    let sub = export_of(vec![rendered("s1", &["the needle"], 5)], None, Vec::new());
    let e = export_of(vec![rendered("m1", &["nothing", &long], 3)], Some("main"), vec![sub]);
    let none: Vec<String> = Vec::new();
    let subs = vec![Vec::new()];
    let hits = search::search_conversation(&e, "NEEDLE", None, &none, &subs);
    assert_eq!(hits.len(), 2);
    assert_eq!(hits[0].key, "m1-1-main");
    assert_eq!(hits[0].track_id, "main");
    assert_eq!(hits[0].kind_label, "assistant message");
    assert_eq!(hits[0].line_label, "L3");
    assert_eq!(hits[0].source_text, format!("{}Needle here{}", "x".repeat(40), "y".repeat(55)));
    assert_eq!(hits[1].key, "s1-0-sub");
    assert_eq!(hits[1].track_id, "sub");
    assert_eq!(hits[1].source_text, "the needle");

    let main_only = search::search_conversation(&e, "needle", Some("main"), &none, &subs);
    assert_eq!(main_only.len(), 1);
    let subs_only = search::search_conversation(&e, "needle", Some("subagents"), &none, &subs);
    assert_eq!(subs_only.len(), 1);
    assert_eq!(subs_only[0].track_id, "sub");
    let elsewhere = search::search_conversation(&e, "needle", Some("elsewhere"), &none, &subs);
    assert!(elsewhere.is_empty());
}

#[test]
fn search_caps_results() {
    let texts: Vec<String> = (0..250).map(|i| format!("hit {}", i)).collect();
    let refs: Vec<&str> = texts.iter().map(|s| s.as_str()).collect();
    let e = export_of(vec![rendered("m1", &refs, 3)], Some("main"), Vec::new());
    let hits = search::search_conversation(&e, "hit", Some("all"), &Vec::new(), &Vec::new());
    assert_eq!(hits.len(), 200);
    assert_eq!(hits[199].key, "m1-199-main");
}

#[test]
fn search_moves_window_to_character_boundaries() {
    let t = format!("{}xneedle", "é".repeat(30));
    let e = export_of(vec![rendered("m1", &[&t], 3)], Some("main"), Vec::new());
    let hits = search::search_conversation(&e, "needle", None, &Vec::new(), &Vec::new());
    assert_eq!(hits.len(), 1);
    assert_eq!(hits[0].source_text, format!("{}xneedle", "é".repeat(20)));

    let u = format!("{}ax", "é".repeat(25));
    let e2 = export_of(vec![rendered("m1", &[&u], 3)], Some("main"), Vec::new());
    let hits2 = search::search_in_export(&e2, "x", "main", &Vec::new());
    assert_eq!(hits2.len(), 1);
    assert_eq!(hits2[0].source_text, format!("{}ax", "é".repeat(20)));

    let ok = format!("{}needle", "é".repeat(30));
    let e3 = export_of(vec![rendered("m1", &[&ok], 3)], Some("main"), Vec::new());
    let hits3 = search::search_conversation(&e3, "needle", None, &Vec::new(), &Vec::new());
    assert_eq!(hits3[0].source_text, format!("{}needle", "é".repeat(20)));
}

#[test]
fn search_covers_raw_events() {
    let mut e = export_of(vec![rendered("m1", &["nothing here"], 3)], Some("main"), Vec::new());
    e.raw_events = raw_events_of(&["t1", "t2"]);
    let texts = vec![
        r#"{"type":"thinking_level_change","id":"t1","thinkingLevel":"HIGH"}"#.to_string(),
        r#"{"type":"thinking_level_change","id":"t2","thinkingLevel":"low"}"#.to_string(),
    ];
    let hits = search::search_conversation(&e, "high", Some("main"), &texts, &Vec::new());
    assert_eq!(hits.len(), 1);
    assert_eq!(hits[0].key, "t1-raw-main");
    assert_eq!(hits[0].kind_label, "thinking_level_change event");
    assert_eq!(hits[0].line_label, "L3");
    let pos = texts[0].to_lowercase().find("high").unwrap();
    assert_eq!(hits[0].source_text, &texts[0][pos - 40..]);
    assert_eq!(hits[0].nav.as_ref().unwrap().line_number, 3);
}

#[test]
fn search_in_export_track_name() {
    let e = export_of(vec![rendered("m1", &["Alpha"], 3)], None, Vec::new());
    let hits = search::search_in_export(&e, "alp", "track-x", &Vec::new());
    assert_eq!(hits.len(), 1);
    assert_eq!(hits[0].key, "m1-0-track-x");
    assert_eq!(hits[0].source_text, "Alpha");
}

#[test]
fn cached_payload_serves_what_was_built() {
    let body = b"{\"protocol\":2}".to_vec();
    let fresh = cache::fresh_reply(body.clone(), Some("fp1"), "br");
    match &fresh.reply {
        TimelineReply::Plain { etag, body: b } => {
            assert_eq!(etag.as_deref(), Some("\"fp1\""));
            assert_eq!(b, &body);
        },
        _ => panic!("Expected a plain reply"),
    }
    let stored = fresh.cache_payload.unwrap();
    assert_ne!(stored, body);
    match cache::serve_cached("fp1", stored.clone(), None, "") {
        TimelineReply::Plain { etag, body: b } => {
            assert_eq!(etag.as_deref(), Some("\"fp1\""));
            assert_eq!(b, body);
        },
        _ => panic!("Expected a plain reply from the cache"),
    }
    match cache::serve_cached("fp1", stored.clone(), Some("\"old\""), "gzip, deflate") {
        TimelineReply::Compressed { etag, body: b, vary } => {
            assert_eq!(etag.as_deref(), Some("\"fp1\""));
            assert_eq!(b, stored);
            assert!(vary);
        },
        _ => panic!("Expected a gzip reply from the cache"),
    }
    match cache::serve_cached("fp1", stored, Some("\"fp1\""), "gzip") {
        TimelineReply::NotModified { etag } => assert_eq!(etag, "\"fp1\""),
        _ => panic!("Expected 304"),
    }
}

#[test]
fn fresh_reply_gzip_and_no_fingerprint() {
    let body = b"payload".to_vec();
    let fresh = cache::fresh_reply(body, None, "gzip");
    assert!(fresh.cache_payload.is_none());
    match fresh.reply {
        TimelineReply::Compressed { etag, body: z, vary } => {
            assert!(etag.is_none());
            assert!(!vary);
            assert_eq!(&z[..2], &[0x1f, 0x8b]);
        },
        _ => panic!("Expected a gzip reply"),
    }
}

#[test]
fn broken_cache_entry_fails() {
    assert!(matches!(cache::serve_cached("fp", b"not gzip".to_vec(), None, "identity"), TimelineReply::Failed));
}

#[test]
fn etag_and_encoding() {
    assert_eq!(cache::etag_for("abc"), "\"abc\"");
    assert!(cache::accepts_gzip("deflate, gzip;q=0.5"));
    assert!(!cache::accepts_gzip("br"));
}

#[test]
fn timeline_payload_of_session() {
    let entries = vec![SessionEntry::Message(message_entry("m1", "user", vec![text("Hi")])), thinking_change("t1")];
    let p = payloads::timeline_payload(parsed(entries), "abc", Vec::new());
    assert_eq!(p.protocol, 2);
    assert_eq!(p.jsonl_file, "-proj/abc.jsonl");
    assert_eq!(p.summary.id, "abc");
    assert_eq!(p.summary.title.as_deref(), Some("Refactor"));
    assert_eq!(p.summary.model, "Unknown");
    assert_eq!(p.summary.message_count, 2);
    assert_eq!(p.summary.subagent_count, 0);
    assert_eq!(p.capsule_seeds.len(), 2);
    assert!(matches!(p.capsule_seeds[1], CapsuleSeed::Raw { line_number: 4, event_index: 1, .. }));
    assert_eq!((p.message_count, p.raw_event_count), (0, 0));
    assert!(p.subagent_transcripts.is_empty());
}

#[test]
fn subagent_skeleton_of_log() {
    let k = payloads::subagent_skeleton(parsed(vec![thinking_change("t1")]), "abc", "task", "/s/-proj/abc/task.jsonl");
    assert_eq!(k.summary.id, "abc-task");
    assert_eq!(k.summary.directory, "/home/u/proj");
    assert_eq!(k.agent_type, "task");
    assert_eq!(k.agent_description, "Refactor");
    assert_eq!((k.message_count, k.capsule_count), (1, 1));
    assert_eq!(k.first_nav.session_id, "abc-task");
    assert_eq!(k.first_nav.jsonl_file, "/s/-proj/abc/task.jsonl");
    assert_eq!((k.first_nav.line_number, k.first_nav.event_index), (1, 0));
    assert_eq!(k.first_nav.scope, "sub");
}

#[test]
fn raw_line_addresses() {
    let n = payloads::raw_line_nav("abc", "-proj/abc.jsonl", 12);
    assert_eq!(n.line_number, 12);
    assert_eq!(n.event_index, 0);
    assert_eq!(n.view, "raw");
    assert_eq!(n.scope, "main");
    assert_eq!(n.agent_path, "main");
}

#[test]
fn session_files_and_ids() {
    assert!(export::is_session_file_for("2026_abc123.jsonl", "abc123"));
    assert!(!export::is_session_file_for("2026_abc123.json", "abc123"));
    assert!(!export::is_session_file_for("2026_other.jsonl", "abc123"));
    assert_eq!(export::sub_session_id("abc", "task"), "abc-task");
    assert_eq!(export::entry_id(&thinking_change("t9")), "t9");
}

#[test]
fn path_helpers() {
    assert_eq!(paths::parent_dir_name("/s/-home-u/x.jsonl"), "-home-u");
    assert_eq!(paths::parent_dir_name("x.jsonl"), "");
    assert_eq!(paths::relative_jsonl_path("/s/d/x.jsonl", "/s"), "d/x.jsonl");
    assert_eq!(paths::relative_jsonl_path("/other/x.jsonl", "/s"), "/other/x.jsonl");
    assert_eq!(paths::raw_event_path("/s", "d/x.jsonl"), Some("/s/d/x.jsonl".to_string()));
    assert_eq!(paths::raw_event_path("/s", "/etc/passwd"), None);
    assert_eq!(paths::raw_event_path("/s", "../x.jsonl"), None);
    assert_eq!(paths::raw_event_path("/s", "d/../../x.jsonl"), None);
    assert_eq!(paths::raw_event_path("/s", "d/..x.jsonl"), Some("/s/d/..x.jsonl".to_string()));
}

#[test]
fn raw_line_ids() {
    assert_eq!(payloads::raw_line_id(r#"{"id":"a1","type":"label"}"#), "a1");
    assert_eq!(payloads::raw_line_id(r#"{"id":7}"#), "");
    assert_eq!(payloads::raw_line_id("[1,2]"), "");
}

#[test]
fn export_counts_subagents_and_reads_model() {
    let sub = export::conversation_export_from_parsed(parsed(vec![thinking_change("t")]), "abc-task", "/h", "/t", "task", "sub", Vec::new());
    let entries = vec![
        SessionEntry::ModelChange(omp_visualizer::models::ModelChangeEntry {
            id: "c1".to_string(),
            parent_id: None,
            timestamp: "2026-01-01T00:00:00Z".to_string(),
            model: "deepseek/deepseek-v4-pro".to_string(),
            role: None,
        }),
        SessionEntry::Message(message_entry("m1", "user", vec![text("Hi")])),
    ];
    let e = export::conversation_export_from_parsed(parsed(entries), "abc", "/h", "/t", "main", "main", vec![sub]);
    assert_eq!(e.summary.subagent_count, 1);
    assert_eq!(e.summary.model.as_deref(), Some("deepseek/deepseek-v4-pro"));
}

#[test]
fn export_uses_file_lines() {
    let mut p = parsed(vec![SessionEntry::Message(message_entry("m1", "user", vec![])), thinking_change("t1")]);
    p.line_numbers = vec![2, 7];
    let e = export::conversation_export_from_parsed(p, "abc", "/h", "/t", "main", "main", Vec::new());
    assert_eq!(e.messages[0].nav.as_ref().unwrap().line_number, 2);
    assert_eq!(e.raw_events[0].nav.line_number, 7);
    assert_eq!(e.raw_events[0].nav.event_index, 1);
}

#[test]
fn timeline_carries_subagent_tracks() {
    let k = payloads::subagent_skeleton(parsed(vec![thinking_change("t1")]), "abc", "task", "/s/task.jsonl");
    let p = payloads::timeline_payload(parsed(vec![thinking_change("t0")]), "abc", vec![k]);
    assert_eq!(p.summary.subagent_count, 1);
    assert_eq!(p.subagent_transcripts.len(), 1);
    assert_eq!(p.subagent_transcripts[0].agent_type, "task");
}

use omp_visualizer::models::AgentMessage;
use omp_visualizer::models::ContentBlock;
use omp_visualizer::models::LabelEntry;
use omp_visualizer::models::McpToolSelectionEntry;
use omp_visualizer::models::MessageEntry;
use omp_visualizer::models::ModelChangeEntry;
use omp_visualizer::models::PartState;
use omp_visualizer::models::RawJson;
use omp_visualizer::models::ServiceTierChangeEntry;
use omp_visualizer::models::SessionEntry;
use omp_visualizer::models::SessionHeader;
use omp_visualizer::models::ThinkingLevelChangeEntry;
use omp_visualizer::models::TtsrInjectionEntry;
use omp_visualizer::session::parser;
use omp_visualizer::session::parser::CapsuleSeed;

fn agent_message(role: &str, content: Vec<ContentBlock>) -> AgentMessage {
    AgentMessage {
        role: role.to_string(),
        content,
        usage: None,
        provider: None,
        model: None,
        api: None,
        timestamp: None,
        tool_call_id: None,
        tool_name: None,
        is_error: None,
    }
}

fn message(id: &str, role: &str, timestamp: &str, content: Vec<ContentBlock>) -> SessionEntry {
    SessionEntry::Message(MessageEntry {
        id: id.to_string(),
        parent_id: None,
        timestamp: timestamp.to_string(),
        message: agent_message(role, content),
    })
}

fn text(t: &str) -> ContentBlock {
    ContentBlock::Text { text: t.to_string() }
}

fn header(id: &str) -> SessionHeader {
    SessionHeader {
        version: Some(3),
        id: id.to_string(),
        timestamp: "2026-01-01T00:00:00Z".to_string(),
        cwd: "/test".to_string(),
        title: Some("Test Session".to_string()),
        title_source: None,
        parent_session: None,
    }
}

fn thinking_change(id: &str, level: &str) -> SessionEntry {
    SessionEntry::ThinkingLevelChange(ThinkingLevelChangeEntry {
        id: id.to_string(),
        parent_id: Some("m1".to_string()),
        timestamp: "2026-01-01T00:00:01Z".to_string(),
        thinking_level: level.to_string(),
        configured: None,
    })
}

#[test]
fn test_extract_preview() {
    let entry = message(
        "m1",
        "assistant",
        "2026-01-01T00:00:00Z",
        vec![text("The fix is to update the parser to handle unknown types gracefully.")],
    );
    let preview = parser::extract_preview(&entry);
    assert!(preview.contains("assistant:"));
    assert!(preview.contains("The fix is"));
}

#[test]
fn test_entry_kind() {
    let entry = message("m1", "user", "2026-01-01T00:00:00Z", vec![text("hi")]);
    let kind = parser::entry_kind(&entry);
    assert_eq!(kind, "message.user");

    let entry2 = SessionEntry::ModelChange(ModelChangeEntry {
        id: "m2".to_string(),
        parent_id: None,
        timestamp: "2026-01-01T00:00:00Z".to_string(),
        model: "gpt-4".to_string(),
        role: None,
    });
    let kind2 = parser::entry_kind(&entry2);
    assert_eq!(kind2, "raw.model_change");
}

#[test]
fn test_build_capsule_seeds() {
    let entries = vec![
        message("m1", "user", "2026-01-01T00:00:00Z", vec![text("Hello")]),
        thinking_change("t1", "high"),
    ];

    let seeds = parser::build_capsule_seeds(&entries, &[3, 4], "session-1", "file.jsonl", "main", 0);
    assert_eq!(seeds.len(), 2);

    match &seeds[0] {
        CapsuleSeed::Message { role, message_id, parts, .. } => {
            assert_eq!(role, "user");
            assert_eq!(message_id, "m1");
            assert!(parts.len() > 0);
        },
        CapsuleSeed::Raw { .. } => panic!("Expected a message seed"),
    }

    match &seeds[1] {
        CapsuleSeed::Raw { raw_type, .. } => assert_eq!(raw_type, "thinking_level_change"),
        CapsuleSeed::Message { .. } => panic!("Expected a raw seed"),
    }
}

#[test]
fn test_capsule_seed_tool_parts() {
    let entry = message(
        "m4",
        "assistant",
        "2026-01-01T00:00:00Z",
        vec![
            text("Let me read the file"),
            ContentBlock::ToolCall {
                id: "call_01".to_string(),
                name: "read".to_string(),
                arguments: RawJson { text: r#"{"path":"/tmp/test"}"#.to_string() },
                partial_args: None,
                stream_index: None,
            },
        ],
    );

    let seeds = parser::build_capsule_seeds(&[entry], &[3], "s1", "f.jsonl", "main", 0);
    assert_eq!(seeds.len(), 1);

    match &seeds[0] {
        CapsuleSeed::Message { parts, .. } => {
            assert_eq!(parts.len(), 2);
            assert_eq!(parts[0].part_type, "text");
            assert_eq!(parts[1].part_type, "tool");
            assert_eq!(parts[1].tool.as_deref(), Some("read"));
        },
        CapsuleSeed::Raw { .. } => panic!("Expected a message seed"),
    }
}

#[test]
fn capsule_seeds_number_lines_and_events() {
    let entries = vec![
        SessionEntry::SessionHeader(header("s")),
        message("m1", "user", "2026-01-01T00:00:00Z", vec![text("Hello")]),
        thinking_change("t1", "low"),
    ];
    let seeds = parser::build_capsule_seeds(&entries, &[2, 4, 5], "s", "f.jsonl", "main", 5);
    assert_eq!(seeds.len(), 2);
    match &seeds[0] {
        CapsuleSeed::Message { line_number, event_index, preview, timestamp_ms, .. } => {
            assert_eq!(*line_number, 4);
            assert_eq!(*event_index, 5);
            assert_eq!(preview, "user: Hello");
            assert_eq!(*timestamp_ms, Some(1767225600000));
        },
        CapsuleSeed::Raw { .. } => panic!("Expected a message seed"),
    }
    match &seeds[1] {
        CapsuleSeed::Raw { line_number, event_index, raw_subtype, preview, timestamp_ms, .. } => {
            assert_eq!(*line_number, 5);
            assert_eq!(*event_index, 6);
            assert_eq!(raw_subtype, "");
            assert_eq!(preview, "Thinking: low");
            assert_eq!(*timestamp_ms, Some(1767225601000));
        },
        CapsuleSeed::Message { .. } => panic!("Expected a raw seed"),
    }
}

#[test]
fn capsule_part_states() {
    let entry = message(
        "m5",
        "assistant",
        "2026-01-01T00:00:00Z",
        vec![
            ContentBlock::ToolResult {
                tool_use_id: "call_02".to_string(),
                content: None,
                is_error: true,
            },
            ContentBlock::Image { source: RawJson { text: r#"{"url":"x"}"#.to_string() } },
        ],
    );
    let seeds = parser::build_capsule_seeds(&[entry], &[3], "s1", "f.jsonl", "main", 0);
    match &seeds[0] {
        CapsuleSeed::Message { parts, preview, .. } => {
            assert_eq!(parts[0].part_type, "tool_result");
            assert_eq!(parts[0].error, Some(true));
            assert_eq!(parts[0].tool_use_id, None);
            assert_eq!(parts[0].content_index, 0);
            assert_eq!(parts[1].part_type, "image");
            match &parts[1].state {
                Some(PartState::Media { value }) => assert_eq!(value.text, r#"{"url":"x"}"#),
                _ => panic!("Expected a media state"),
            }
            assert_eq!(parts[1].element_type, "part");
            assert_eq!(preview, "assistant: [Error]");
        },
        CapsuleSeed::Raw { .. } => panic!("Expected a message seed"),
    }
}

#[test]
fn preview_cuts_long_text() {
    let long = "a".repeat(200);
    let entry = message("m1", "assistant", "2026-01-01T00:00:00Z", vec![text(&long)]);
    let preview = parser::extract_preview(&entry);
    assert_eq!(preview, format!("assistant: {}...", "a".repeat(137)));

    let exact = "b".repeat(140);
    let entry2 = message("m2", "user", "2026-01-01T00:00:00Z", vec![text(&exact)]);
    assert_eq!(parser::extract_preview(&entry2), format!("user: {}", exact));

    let empty = message("m3", "user", "2026-01-01T00:00:00Z", vec![]);
    assert_eq!(parser::extract_preview(&empty), "user: ");
}

#[test]
fn preview_of_raw_entries() {
    let label = SessionEntry::Label(LabelEntry {
        id: "l1".to_string(),
        parent_id: None,
        timestamp: "2026-01-01T00:00:00Z".to_string(),
        target_id: "m1".to_string(),
        label: None,
    });
    assert_eq!(parser::extract_preview(&label), "Label: (clear)");

    let ttsr = SessionEntry::TtsrInjection(TtsrInjectionEntry {
        id: "x".to_string(),
        parent_id: None,
        timestamp: "2026-01-01T00:00:00Z".to_string(),
        injected_rules: vec!["a".to_string(), "b".to_string(), "c".to_string()],
    });
    assert_eq!(parser::extract_preview(&ttsr), "TTSR: 3 rules");

    let mcp = SessionEntry::McpToolSelection(McpToolSelectionEntry {
        id: "x".to_string(),
        parent_id: None,
        timestamp: "2026-01-01T00:00:00Z".to_string(),
        selected_tool_names: vec!["read".to_string(), "write".to_string()],
    });
    assert_eq!(parser::extract_preview(&mcp), "MCP tools: read, write");

    let tier = SessionEntry::ServiceTierChange(ServiceTierChangeEntry {
        id: "x".to_string(),
        parent_id: None,
        timestamp: "2026-01-01T00:00:00Z".to_string(),
        service_tier: Some(RawJson { text: r#""priority""#.to_string() }),
    });
    assert_eq!(parser::extract_preview(&tier), r#"Service tier: Some(String("priority"))"#);

    let none_tier = SessionEntry::ServiceTierChange(ServiceTierChangeEntry {
        id: "x".to_string(),
        parent_id: None,
        timestamp: "2026-01-01T00:00:00Z".to_string(),
        service_tier: None,
    });
    assert_eq!(parser::extract_preview(&none_tier), "Service tier: None");

    assert_eq!(parser::extract_preview(&SessionEntry::SessionHeader(header("s"))), "Session");
}

#[test]
fn entry_kinds_and_types() {
    assert_eq!(
        parser::entry_kind(&message("m", "toolResult", "2026-01-01T00:00:00Z", vec![])),
        "message.tool_result"
    );
    assert_eq!(parser::entry_kind(&message("m", "developer", "2026-01-01T00:00:00Z", vec![])), "message.user");
    assert_eq!(parser::entry_kind(&message("m", "system", "2026-01-01T00:00:00Z", vec![])), "message.other");
    assert_eq!(parser::entry_kind(&SessionEntry::SessionHeader(header("s"))), "raw.session");
    assert_eq!(parser::entry_raw_type(&thinking_change("t", "high")), "thinking_level_change");
    assert_eq!(parser::entry_raw_type(&SessionEntry::SessionHeader(header("s"))), "unknown");
    assert_eq!(parser::entry_raw_subtype(&thinking_change("t", "high")), "");
}

#[test]
fn entry_timestamps() {
    let entry = message("m", "user", "2026-01-01T00:00:00Z", vec![]);
    assert_eq!(parser::entry_timestamp_ms(&entry), Some(1767225600000));
    let bad = message("m", "user", "yesterday", vec![]);
    assert_eq!(parser::entry_timestamp_ms(&bad), None);
    assert_eq!(parser::entry_timestamp_ms(&SessionEntry::SessionHeader(header("s"))), None);
}

#[test]
fn assemble_keeps_first_header() {
    let lines = vec![
        None,
        Some(SessionEntry::SessionHeader(header("first"))),
        Some(message("m1", "user", "2026-01-01T00:00:00Z", vec![text("Hi")])),
        Some(SessionEntry::SessionHeader(header("second"))),
        Some(thinking_change("t1", "high")),
    ];
    let parsed = parser::assemble_session(lines, "/s/a.jsonl".to_string(), "a.jsonl".to_string()).unwrap();
    assert_eq!(parsed.header.id, "first");
    assert_eq!(parsed.entries.len(), 2);
    assert_eq!(parsed.line_numbers, vec![3, 5]);
    assert_eq!(parsed.file_path, "/s/a.jsonl");
    assert_eq!(parsed.jsonl_file, "a.jsonl");
}

#[test]
fn assemble_without_header_is_refused() {
    let lines = vec![Some(thinking_change("t1", "high")), None];
    let err = parser::assemble_session(lines, "/s/b.jsonl".to_string(), "b.jsonl".to_string()).err().unwrap();
    assert_eq!(err, "No session header found in /s/b.jsonl");
}

#[test]
fn tool_use_ids_of_blocks() {
    let call = ContentBlock::ToolUse {
        id: "call_9".to_string(),
        name: "grep".to_string(),
        input: RawJson { text: "{}".to_string() },
    };
    assert_eq!(parser::block_tool_use_id(&call).as_deref(), Some("call_9"));
    assert_eq!(parser::block_tool_use_id(&text("x")), None);
    let (ptype, tool, state, error, elem) = parser::part_descriptor(&call);
    assert_eq!(ptype, "tool");
    assert_eq!(tool.as_deref(), Some("grep"));
    assert!(matches!(state, Some(PartState::Input { .. })));
    assert_eq!(error, None);
    assert_eq!(elem, "part");
}

#[test]
fn preview_cut_counts_characters() {
    let wide = "é".repeat(71);
    let entry = message("m1", "user", "2026-01-01T00:00:00Z", vec![text(&wide)]);
    assert_eq!(parser::extract_preview(&entry), format!("user: {}", wide));

    let long = "é".repeat(150);
    let entry2 = message("m2", "user", "2026-01-01T00:00:00Z", vec![text(&long)]);
    assert_eq!(parser::extract_preview(&entry2), format!("user: {}...", "é".repeat(137)));

    let edge = "é".repeat(140);
    let entry3 = message("m3", "user", "2026-01-01T00:00:00Z", vec![text(&edge)]);
    assert_eq!(parser::extract_preview(&entry3), format!("user: {}", edge));
}

#[test]
fn capsule_seeds_at_file_lines() {
    let entries = vec![
        message("m1", "user", "2026-01-01T00:00:00Z", vec![text("Hello")]),
        SessionEntry::SessionHeader(header("s")),
        thinking_change("t1", "high"),
    ];
    let seeds = parser::build_capsule_seeds(&entries, &[2, 5, 9], "s", "f.jsonl", "main", 0);
    assert_eq!(seeds.len(), 2);
    assert!(matches!(seeds[0], CapsuleSeed::Message { line_number: 2, event_index: 0, .. }));
    assert!(matches!(seeds[1], CapsuleSeed::Raw { line_number: 9, event_index: 1, .. }));
}

#[test]
fn seeds_ignore_session_file_and_agent() {
    let entries = vec![
        SessionEntry::SessionHeader(header("s")),
        message("m1", "user", "2026-01-01T00:00:00Z", vec![text("Hello")]),
        thinking_change("t1", "low"),
    ];
    let a = parser::build_capsule_seeds(&entries, &[1, 3, 4], "s", "f.jsonl", "main", 0);
    let b = parser::build_capsule_seeds(&entries, &[1, 3, 4], "other", "g.jsonl", "agent", 10);
    assert_eq!(a.len(), b.len());
    for (x, y) in a.iter().zip(b.iter()) {
        match (x, y) {
            (
                CapsuleSeed::Message { line_number: l1, event_index: e1, message_id: m1, preview: p1, .. },
                CapsuleSeed::Message { line_number: l2, event_index: e2, message_id: m2, preview: p2, .. },
            ) => {
                assert_eq!(l1, l2);
                assert_eq!(*e1 + 10, *e2);
                assert_eq!(m1, m2);
                assert_eq!(p1, p2);
            },
            (
                CapsuleSeed::Raw { line_number: l1, event_index: e1, raw_type: k1, preview: p1, .. },
                CapsuleSeed::Raw { line_number: l2, event_index: e2, raw_type: k2, preview: p2, .. },
            ) => {
                assert_eq!(l1, l2);
                assert_eq!(*e1 + 10, *e2);
                assert_eq!(k1, k2);
                assert_eq!(p1, p2);
            },
            _ => panic!("Seeds of one entry differ in kind"),
        }
    }
}

#[test]
fn decimal_renders_signs() {
    assert_eq!(omp_visualizer::text::decimal_string(0), "0");
    assert_eq!(omp_visualizer::text::decimal_string(907), "907");
    assert_eq!(omp_visualizer::text::decimal_string(-45), "-45");
    assert_eq!(omp_visualizer::text::decimal_string(i128::MIN), i128::MIN.to_string());
    assert_eq!(omp_visualizer::text::decimal_string(i128::MAX), i128::MAX.to_string());
}

#[test]
fn session_model_is_last_model_change() {
    let change = |m: &str| {
        SessionEntry::ModelChange(ModelChangeEntry {
            id: "c".to_string(),
            parent_id: None,
            timestamp: "2026-01-01T00:00:00Z".to_string(),
            model: m.to_string(),
            role: None,
        })
    };
    let entries = vec![change("a"), thinking_change("t", "low"), change("b"), thinking_change("u", "high")];
    assert_eq!(parser::session_model(&entries), "b");
    assert_eq!(parser::session_model(&[thinking_change("t", "low")]), "Unknown");
}

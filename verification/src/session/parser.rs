use vstd::prelude::*;

use crate::json::json_debug;
use crate::json::json_debug_option;
use crate::models::ContentBlock;
use crate::models::MessageEntry;
use crate::models::PartState;
use crate::models::RawJson;
use crate::models::copy_raw;
use crate::models::SessionEntry;
use crate::models::SessionHeader;
use crate::text::cat;
use crate::text::chars_of;
use crate::text::decimal;
use crate::text::decimal_string;
use crate::text::join;
use crate::text::join_strings;
use crate::text::str_eq;
use crate::text::string_of_range;
use crate::timefmt::opt_millis;
use crate::timefmt::rfc3339_millis;
use crate::timefmt::rfc3339_to_millis;

verus! {

// ── Kinds and types of entries ─────────────────────────────────────

/// The capsule kind of an entry, as the timeline expects it.
pub open spec fn kind_of(e: SessionEntry) -> Seq<char> {
    match e {
        SessionEntry::Message(m) => {
            let role = m.message.role@;
            if role == "user"@ || role == "developer"@ {
                "message.user"@
            } else if role == "assistant"@ {
                "message.assistant"@
            } else if role == "toolResult"@ || role == "tool_result"@ {
                "message.tool_result"@
            } else {
                "message.other"@
            }
        },
        SessionEntry::Compaction(_) => "raw.compaction"@,
        SessionEntry::BranchSummary(_) => "raw.branch_summary"@,
        SessionEntry::ModelChange(_) => "raw.model_change"@,
        SessionEntry::ThinkingLevelChange(_) => "raw.thinking_level_change"@,
        SessionEntry::ModeChange(_) => "raw.mode_change"@,
        SessionEntry::TitleChange(_) => "raw.title_change"@,
        SessionEntry::Title(_) => "raw.title_change"@,
        SessionEntry::Label(_) => "raw.label"@,
        SessionEntry::Custom(_) => "raw.custom"@,
        SessionEntry::CustomMessage(_) => "raw.custom_message"@,
        SessionEntry::TtsrInjection(_) => "raw.ttsr_injection"@,
        SessionEntry::SessionInit(_) => "raw.session_init"@,
        SessionEntry::McpToolSelection(_) => "raw.mcp_tool_selection"@,
        SessionEntry::ServiceTierChange(_) => "raw.service_tier_change"@,
        SessionEntry::SessionHeader(_) => "raw.session"@,
    }
}

/// Determine the kind string for a capsule seed.
pub fn entry_kind(entry: &SessionEntry) -> (r: &'static str)
    ensures
        r@ == kind_of(*entry),
{
    match entry {
        SessionEntry::Message(msg) => {
            let role = msg.message.role.as_str();
            if str_eq(role, "user") || str_eq(role, "developer") {
                "message.user"
            } else if str_eq(role, "assistant") {
                "message.assistant"
            } else if str_eq(role, "toolResult") || str_eq(role, "tool_result") {
                "message.tool_result"
            } else {
                "message.other"
            }
        },
        SessionEntry::Compaction(_) => "raw.compaction",
        SessionEntry::BranchSummary(_) => "raw.branch_summary",
        SessionEntry::ModelChange(_) => "raw.model_change",
        SessionEntry::ThinkingLevelChange(_) => "raw.thinking_level_change",
        SessionEntry::ModeChange(_) => "raw.mode_change",
        SessionEntry::TitleChange(_) | SessionEntry::Title(_) => "raw.title_change",
        SessionEntry::Label(_) => "raw.label",
        SessionEntry::Custom(_) => "raw.custom",
        SessionEntry::CustomMessage(_) => "raw.custom_message",
        SessionEntry::TtsrInjection(_) => "raw.ttsr_injection",
        SessionEntry::SessionInit(_) => "raw.session_init",
        SessionEntry::McpToolSelection(_) => "raw.mcp_tool_selection",
        SessionEntry::ServiceTierChange(_) => "raw.service_tier_change",
        SessionEntry::SessionHeader(_) => "raw.session",
    }
}

/// The raw event type of a non-message entry.
pub open spec fn raw_type_of(e: SessionEntry) -> Seq<char> {
    match e {
        SessionEntry::Compaction(_) => "compaction"@,
        SessionEntry::BranchSummary(_) => "branch_summary"@,
        SessionEntry::ModelChange(_) => "model_change"@,
        SessionEntry::ThinkingLevelChange(_) => "thinking_level_change"@,
        SessionEntry::ModeChange(_) => "mode_change"@,
        SessionEntry::TitleChange(_) => "title_change"@,
        SessionEntry::Title(_) => "title_change"@,
        SessionEntry::Label(_) => "label"@,
        SessionEntry::Custom(_) => "custom"@,
        SessionEntry::CustomMessage(_) => "custom_message"@,
        SessionEntry::TtsrInjection(_) => "ttsr_injection"@,
        SessionEntry::SessionInit(_) => "session_init"@,
        SessionEntry::McpToolSelection(_) => "mcp_tool_selection"@,
        SessionEntry::ServiceTierChange(_) => "service_tier_change"@,
        _ => "unknown"@,
    }
}

/// The raw event type of an entry.
pub fn entry_raw_type(entry: &SessionEntry) -> (r: &'static str)
    ensures
        r@ == raw_type_of(*entry),
{
    match entry {
        SessionEntry::Compaction(_) => "compaction",
        SessionEntry::BranchSummary(_) => "branch_summary",
        SessionEntry::ModelChange(_) => "model_change",
        SessionEntry::ThinkingLevelChange(_) => "thinking_level_change",
        SessionEntry::ModeChange(_) => "mode_change",
        SessionEntry::TitleChange(_) | SessionEntry::Title(_) => "title_change",
        SessionEntry::Label(_) => "label",
        SessionEntry::Custom(_) => "custom",
        SessionEntry::CustomMessage(_) => "custom_message",
        SessionEntry::TtsrInjection(_) => "ttsr_injection",
        SessionEntry::SessionInit(_) => "session_init",
        SessionEntry::McpToolSelection(_) => "mcp_tool_selection",
        SessionEntry::ServiceTierChange(_) => "service_tier_change",
        _ => "unknown",
    }
}

/// The raw event subtype of an entry: no entry type carries one.
pub fn entry_raw_subtype(entry: &SessionEntry) -> (r: &'static str)
    ensures
        r@ == ""@,
{
    ""
}

/// The timestamp text of an entry, where it has one.
pub open spec fn timestamp_text_of(e: SessionEntry) -> Option<String> {
    match e {
        SessionEntry::Message(m) => Some(m.timestamp),
        SessionEntry::Compaction(c) => Some(c.timestamp),
        SessionEntry::BranchSummary(b) => Some(b.timestamp),
        SessionEntry::ModelChange(m) => Some(m.timestamp),
        SessionEntry::ThinkingLevelChange(t) => Some(t.timestamp),
        SessionEntry::ModeChange(m) => Some(m.timestamp),
        SessionEntry::TitleChange(t) => Some(t.timestamp),
        SessionEntry::Title(t) => t.timestamp,
        SessionEntry::Label(l) => Some(l.timestamp),
        SessionEntry::Custom(c) => Some(c.timestamp),
        SessionEntry::CustomMessage(c) => Some(c.timestamp),
        SessionEntry::TtsrInjection(t) => Some(t.timestamp),
        SessionEntry::SessionInit(s) => Some(s.timestamp),
        SessionEntry::McpToolSelection(m) => Some(m.timestamp),
        SessionEntry::ServiceTierChange(s) => Some(s.timestamp),
        SessionEntry::SessionHeader(_) => None,
    }
}

/// The timestamp of an entry in Unix milliseconds, where it has one chrono accepts.
pub open spec fn timestamp_of(e: SessionEntry) -> Option<i64> {
    opt_millis(timestamp_text_of(e))
}

/// The timestamp of an entry in Unix milliseconds.
pub fn entry_timestamp_ms(entry: &SessionEntry) -> (r: Option<i64>)
    ensures
        r == timestamp_of(*entry),
{
    let ts: Option<&String> = match entry {
        SessionEntry::Message(m) => Some(&m.timestamp),
        SessionEntry::Compaction(c) => Some(&c.timestamp),
        SessionEntry::BranchSummary(b) => Some(&b.timestamp),
        SessionEntry::ModelChange(m) => Some(&m.timestamp),
        SessionEntry::ThinkingLevelChange(t) => Some(&t.timestamp),
        SessionEntry::ModeChange(m) => Some(&m.timestamp),
        SessionEntry::TitleChange(t) => Some(&t.timestamp),
        SessionEntry::Title(t) => t.timestamp.as_ref(),
        SessionEntry::Label(l) => Some(&l.timestamp),
        SessionEntry::Custom(c) => Some(&c.timestamp),
        SessionEntry::CustomMessage(cm) => Some(&cm.timestamp),
        SessionEntry::TtsrInjection(ti) => Some(&ti.timestamp),
        SessionEntry::SessionInit(si) => Some(&si.timestamp),
        SessionEntry::McpToolSelection(mts) => Some(&mts.timestamp),
        SessionEntry::ServiceTierChange(stc) => Some(&stc.timestamp),
        _ => None,
    };
    match ts {
        Some(s) => rfc3339_millis(s.as_str()),
        None => None,
    }
}


// ── Previews ───────────────────────────────────────────────────────

/// The preview text of one content block.
pub open spec fn block_preview(b: ContentBlock) -> Seq<char> {
    match b {
        ContentBlock::Text { text } => text@,
        ContentBlock::Thinking { thinking, .. } => thinking@,
        ContentBlock::ToolCall { .. } => Seq::empty(),
        ContentBlock::ToolUse { .. } => Seq::empty(),
        ContentBlock::ToolResult { is_error, .. } => if is_error {
            "[Error]"@
        } else {
            "[Tool result]"@
        },
        ContentBlock::Image { .. } => "[Image]"@,
        ContentBlock::ImageUrl { .. } => "[Image]"@,
    }
}

/// The preview of a message: its role, then its first block's preview; a block preview
/// of more than 140 characters keeps its first 137 characters and gets "...".
pub open spec fn message_preview(m: MessageEntry) -> Seq<char> {
    let c = if m.message.content.len() == 0 {
        Seq::<char>::empty()
    } else {
        block_preview(m.message.content@[0])
    };
    let head = m.message.role@ + ": "@;
    if c.len() > 140 {
        head + c.take(137) + "..."@
    } else {
        head + c
    }
}

/// An optional string's characters, or `d` when it is absent.
pub open spec fn or_default(o: Option<String>, d: Seq<char>) -> Seq<char> {
    match o {
        Some(s) => s@,
        None => d,
    }
}

/// The characters of each string.
pub open spec fn strings_view(v: Seq<String>) -> Seq<Seq<char>> {
    v.map_values(|s: String| s@)
}

/// The preview text of an entry.
pub open spec fn preview_of(e: SessionEntry) -> Seq<char> {
    match e {
        SessionEntry::Message(m) => message_preview(m),
        SessionEntry::Compaction(c) => or_default(c.summary, "Compaction"@),
        SessionEntry::BranchSummary(b) => or_default(b.summary, "Branch summary"@),
        SessionEntry::ModelChange(m) => "Model: "@ + m.model@,
        SessionEntry::ThinkingLevelChange(t) => "Thinking: "@ + t.thinking_level@,
        SessionEntry::ModeChange(m) => "Mode: "@ + m.mode@,
        SessionEntry::TitleChange(t) => "Title: "@ + t.title@,
        SessionEntry::Title(t) => "Title: "@ + t.title@,
        SessionEntry::Label(l) => "Label: "@ + or_default(l.label, "(clear)"@),
        SessionEntry::Custom(c) => "Custom: "@ + c.custom_type@,
        SessionEntry::CustomMessage(c) => "Custom msg: "@ + c.custom_type@,
        SessionEntry::TtsrInjection(t) => "TTSR: "@ + decimal(t.injected_rules.len() as int) + " rules"@,
        SessionEntry::SessionInit(s) => or_default(s.task, "Session init"@),
        SessionEntry::McpToolSelection(m) => "MCP tools: "@ + join(strings_view(m.selected_tool_names@), ", "@),
        SessionEntry::ServiceTierChange(s) => "Service tier: "@ + json_debug_option(
            match s.service_tier {
                Some(j) => Some(j.text@),
                None => None,
            },
        ),
        SessionEntry::SessionHeader(_) => "Session"@,
    }
}

fn block_preview_text(b: &ContentBlock) -> (r: String)
    ensures
        r@ == block_preview(*b),
{
    match b {
        ContentBlock::Text { text } => text.clone(),
        ContentBlock::Thinking { thinking, .. } => thinking.clone(),
        ContentBlock::ToolCall { .. } => String::new(),
        ContentBlock::ToolUse { .. } => String::new(),
        ContentBlock::ToolResult { is_error, .. } => if *is_error {
            String::from_str("[Error]")
        } else {
            String::from_str("[Tool result]")
        },
        ContentBlock::Image { .. } | ContentBlock::ImageUrl { .. } => String::from_str("[Image]"),
    }
}

fn opt_or(o: &Option<String>, d: &str) -> (r: String)
    ensures
        r@ == or_default(*o, d@),
{
    match o {
        Some(s) => s.clone(),
        None => String::from_str(d),
    }
}

fn message_preview_text(msg: &MessageEntry) -> (r: String)
    ensures
        r@ == message_preview(*msg),
{
    let role = msg.message.role.as_str();
    let content_preview = if msg.message.content.len() == 0 {
        String::new()
    } else {
        block_preview_text(&msg.message.content[0])
    };
    let ghost c = content_preview@;
    assert(c == if msg.message.content@.len() == 0 {
        Seq::<char>::empty()
    } else {
        block_preview(msg.message.content@[0])
    });
    let head = cat(role, ": ");
    let cs = chars_of(content_preview.as_str());
    if cs.len() > 140 {
        let n: usize = 137;
        let cut = string_of_range(cs.as_slice(), 0, n);
        assert(cut@ =~= c.take(n as int));
        let with_head = cat(head.as_str(), cut.as_str());
        cat(with_head.as_str(), "...")
    } else {
        cat(head.as_str(), content_preview.as_str())
    }
}

/// Extract a preview from entry data for capsule seeds; the text of a message's preview
/// is at most 140 characters.
pub fn extract_preview(entry: &SessionEntry) -> (r: String)
    ensures
        r@ == preview_of(*entry),
{
    match entry {
        SessionEntry::Message(msg) => message_preview_text(msg),
        SessionEntry::Compaction(c) => opt_or(&c.summary, "Compaction"),
        SessionEntry::BranchSummary(b) => opt_or(&b.summary, "Branch summary"),
        SessionEntry::ModelChange(m) => cat("Model: ", m.model.as_str()),
        SessionEntry::ThinkingLevelChange(t) => cat("Thinking: ", t.thinking_level.as_str()),
        SessionEntry::ModeChange(m) => cat("Mode: ", m.mode.as_str()),
        SessionEntry::TitleChange(t) => cat("Title: ", t.title.as_str()),
        SessionEntry::Title(t) => cat("Title: ", t.title.as_str()),
        SessionEntry::Label(l) => {
            let label = opt_or(&l.label, "(clear)");
            cat("Label: ", label.as_str())
        },
        SessionEntry::Custom(c) => cat("Custom: ", c.custom_type.as_str()),
        SessionEntry::CustomMessage(cm) => cat("Custom msg: ", cm.custom_type.as_str()),
        SessionEntry::TtsrInjection(ti) => {
            let n = decimal_string(ti.injected_rules.len() as i128);
            let a = cat("TTSR: ", n.as_str());
            cat(a.as_str(), " rules")
        },
        SessionEntry::SessionInit(si) => opt_or(&si.task, "Session init"),
        SessionEntry::McpToolSelection(mts) => {
            let names = join_strings(&mts.selected_tool_names, ", ");
            cat("MCP tools: ", names.as_str())
        },
        SessionEntry::ServiceTierChange(stc) => {
            let d = json_debug(&stc.service_tier);
            cat("Service tier: ", d.as_str())
        },
        SessionEntry::SessionHeader(_) => String::from_str("Session"),
    }
}


/// The preview of a message is its role and ": ", then what its first block shows: a
/// text or thinking block its text (the first 137 characters and "..." when the text is
/// longer than 140), a tool result "[Error]" or "[Tool result]", an image "[Image]", and
/// a tool call, or no block at all, nothing.
pub proof fn lemma_message_preview_shows_first_block(m: MessageEntry)
    ensures
        ({
            let head = m.message.role@ + ": "@;
            let p = preview_of(SessionEntry::Message(m));
            let c = m.message.content@;
            &&& c.len() == 0 ==> p == head
            &&& c.len() > 0 ==> match c[0] {
                ContentBlock::Text { text } => p == head + (if text@.len() <= 140 {
                    text@
                } else {
                    text@.take(137) + "..."@
                }),
                ContentBlock::Thinking { thinking, .. } => p == head + (if thinking@.len() <= 140 {
                    thinking@
                } else {
                    thinking@.take(137) + "..."@
                }),
                ContentBlock::ToolCall { .. } => p == head,
                ContentBlock::ToolUse { .. } => p == head,
                ContentBlock::ToolResult { is_error, .. } => p == head + (if is_error {
                    "[Error]"@
                } else {
                    "[Tool result]"@
                }),
                ContentBlock::Image { .. } => p == head + "[Image]"@,
                ContentBlock::ImageUrl { .. } => p == head + "[Image]"@,
            }
        }),
{
    let head = m.message.role@ + ": "@;
    assert(head + Seq::<char>::empty() =~= head);
    reveal_strlit("[Error]");
    reveal_strlit("[Tool result]");
    reveal_strlit("[Image]");
}

// ── Capsule seeds ──────────────────────────────────────────────────

/// The part type of a content block.
pub open spec fn descriptor_type(b: ContentBlock) -> Seq<char> {
    match b {
        ContentBlock::Text { .. } => "text"@,
        ContentBlock::Thinking { .. } => "reasoning"@,
        ContentBlock::ToolCall { .. } => "tool"@,
        ContentBlock::ToolUse { .. } => "tool"@,
        ContentBlock::ToolResult { .. } => "tool_result"@,
        ContentBlock::Image { .. } => "image"@,
        ContentBlock::ImageUrl { .. } => "image"@,
    }
}

/// The tool named by a content block.
pub open spec fn descriptor_tool(b: ContentBlock) -> Option<String> {
    match b {
        ContentBlock::ToolCall { name, .. } => Some(name),
        ContentBlock::ToolUse { name, .. } => Some(name),
        _ => None,
    }
}

/// The compact state of a content block: a call's input, or an image's source.
pub open spec fn descriptor_state(b: ContentBlock) -> Option<PartState> {
    match b {
        ContentBlock::ToolCall { arguments, .. } => Some(PartState::Input { input: arguments }),
        ContentBlock::ToolUse { input, .. } => Some(PartState::Input { input }),
        ContentBlock::Image { source } => Some(PartState::Media { value: source }),
        ContentBlock::ImageUrl { image_url } => Some(PartState::Media { value: image_url }),
        _ => None,
    }
}

/// The error flag of a tool result.
pub open spec fn descriptor_error(b: ContentBlock) -> Option<bool> {
    match b {
        ContentBlock::ToolResult { is_error, .. } => Some(is_error),
        _ => None,
    }
}

/// The tool call id that a block carries, for tool calls and tool uses.
pub open spec fn tool_use_id_of(b: ContentBlock) -> Option<String> {
    match b {
        ContentBlock::ToolCall { id, .. } => Some(id),
        ContentBlock::ToolUse { id, .. } => Some(id),
        _ => None,
    }
}

/// Describes a content block: part type, tool name, state, error flag and element type.
pub fn part_descriptor(block: &ContentBlock) -> (r: (
    &'static str,
    Option<String>,
    Option<PartState>,
    Option<bool>,
    &'static str,
))
    ensures
        r.0@ == descriptor_type(*block),
        r.1 == descriptor_tool(*block),
        r.2 == descriptor_state(*block),
        r.3 == descriptor_error(*block),
        r.4@ == "part"@,
{
    match block {
        ContentBlock::Text { .. } => ("text", None, None, None, "part"),
        ContentBlock::Thinking { .. } => ("reasoning", None, None, None, "part"),
        ContentBlock::ToolCall { name, arguments, .. } => (
            "tool",
            Some(name.clone()),
            Some(PartState::Input { input: copy_raw(arguments) }),
            None,
            "part",
        ),
        ContentBlock::ToolUse { name, input, .. } => (
            "tool",
            Some(name.clone()),
            Some(PartState::Input { input: copy_raw(input) }),
            None,
            "part",
        ),
        ContentBlock::ToolResult { is_error, .. } => ("tool_result", None, None, Some(*is_error), "part"),
        ContentBlock::Image { source } => (
            "image",
            None,
            Some(PartState::Media { value: copy_raw(source) }),
            None,
            "part",
        ),
        ContentBlock::ImageUrl { image_url } => (
            "image",
            None,
            Some(PartState::Media { value: copy_raw(image_url) }),
            None,
            "part",
        ),
    }
}

/// The tool call id of a tool call or tool use block.
pub fn block_tool_use_id(block: &ContentBlock) -> (r: Option<String>)
    ensures
        r == tool_use_id_of(*block),
{
    match block {
        ContentBlock::ToolCall { id, .. } | ContentBlock::ToolUse { id, .. } => Some(id.clone()),
        _ => None,
    }
}

/// The compact description of one content part in a message capsule.
#[derive(Clone, Debug)]
pub struct PartSeed {
    pub part_type: String,
    pub tool: Option<String>,
    pub state: Option<PartState>,
    pub error: Option<bool>,
    pub element_type: String,
    pub content_index: usize,
    pub tool_use_id: Option<String>,
}

/// The compact form of one timeline capsule.
#[derive(Clone, Debug)]
pub enum CapsuleSeed {
    Message {
        line_number: i64,
        event_index: i64,
        message_id: String,
        role: String,
        parts: Vec<PartSeed>,
        preview: String,
        timestamp_ms: Option<i64>,
    },
    Raw {
        line_number: i64,
        event_index: i64,
        raw_type: String,
        raw_subtype: String,
        preview: String,
        timestamp_ms: Option<i64>,
    },
}

/// `p` describes content block `b`, the `ci`-th of its message.
pub open spec fn part_seed_matches(p: PartSeed, b: ContentBlock, ci: int) -> bool {
    &&& p.part_type@ == descriptor_type(b)
    &&& p.tool == descriptor_tool(b)
    &&& p.state == descriptor_state(b)
    &&& p.error == descriptor_error(b)
    &&& p.element_type@ == "part"@
    &&& p.content_index == ci
    &&& p.tool_use_id == tool_use_id_of(b)
}

/// The seed that an entry at file line `line` with event index `ei` becomes.
pub open spec fn seed_matches(s: CapsuleSeed, e: SessionEntry, line: int, ei: int) -> bool {
    match e {
        SessionEntry::Message(m) => match s {
            CapsuleSeed::Message { line_number, event_index, message_id, role, parts, preview, timestamp_ms } => {
                &&& line_number == line
                &&& event_index == ei
                &&& message_id == m.id
                &&& role == m.message.role
                &&& parts@.len() == m.message.content@.len()
                &&& forall|i: int|
                    0 <= i < parts@.len() ==> part_seed_matches(#[trigger] parts@[i], m.message.content@[i], i)
                &&& preview@ == preview_of(e)
                &&& timestamp_ms == timestamp_of(e)
            },
            _ => false,
        },
        _ => match s {
            CapsuleSeed::Raw { line_number, event_index, raw_type, raw_subtype, preview, timestamp_ms } => {
                &&& line_number == line
                &&& event_index == ei
                &&& raw_type@ == raw_type_of(e)
                &&& raw_subtype@ == ""@
                &&& preview@ == preview_of(e)
                &&& timestamp_ms == timestamp_of(e)
            },
            _ => false,
        },
    }
}

/// Indices of the entries that become events: all but session headers, in order.
pub open spec fn event_positions(entries: Seq<SessionEntry>) -> Seq<int>
    decreases entries.len(),
{
    if entries.len() == 0 {
        Seq::empty()
    } else {
        let rest = event_positions(entries.drop_last());
        if entries.last() is SessionHeader {
            rest
        } else {
            rest.push(entries.len() - 1)
        }
    }
}

/// Event positions are increasing indices of entries that are not session headers.
pub proof fn lemma_event_positions_bounds(entries: Seq<SessionEntry>)
    ensures
        forall|i: int| 0 <= i < event_positions(entries).len() ==> 0 <= #[trigger] event_positions(entries)[i] < entries.len(),
        forall|i: int, j: int| 0 <= i < j < event_positions(entries).len() ==>
            #[trigger] event_positions(entries)[i] < #[trigger] event_positions(entries)[j],
        forall|i: int| 0 <= i < event_positions(entries).len() ==> !(entries[#[trigger] event_positions(entries)[i]] is SessionHeader),
        event_positions(entries).len() <= entries.len(),
    decreases entries.len(),
{
    if entries.len() > 0 {
        lemma_event_positions_bounds(entries.drop_last());
    }
}

fn part_seeds(msg: &MessageEntry) -> (r: Vec<PartSeed>)
    ensures
        r@.len() == msg.message.content@.len(),
        forall|i: int| 0 <= i < r@.len() ==> part_seed_matches(#[trigger] r@[i], msg.message.content@[i], i),
{
    let mut parts: Vec<PartSeed> = Vec::new();
    let mut ci: usize = 0;
    while ci < msg.message.content.len()
        invariant
            ci <= msg.message.content@.len(),
            parts@.len() == ci,
            forall|i: int| 0 <= i < ci ==> part_seed_matches(#[trigger] parts@[i], msg.message.content@[i], i),
        decreases msg.message.content.len() - ci,
    {
        let block = &msg.message.content[ci];
        let (ptype, tool, state, error, elem_type) = part_descriptor(block);
        let tool_use_id = block_tool_use_id(block);
        parts.push(PartSeed {
            part_type: String::from_str(ptype),
            tool,
            state,
            error,
            element_type: String::from_str(elem_type),
            content_index: ci,
            tool_use_id,
        });
        ci = ci + 1;
    }
    parts
}

fn seed_for(entry: &SessionEntry, line_number: i64, event_index: i64) -> (r: CapsuleSeed)
    requires
        !(*entry is SessionHeader),
    ensures
        seed_matches(r, *entry, line_number as int, event_index as int),
{
    let ts_ms = entry_timestamp_ms(entry);
    let preview = extract_preview(entry);
    match entry {
        SessionEntry::Message(msg) => CapsuleSeed::Message {
            line_number,
            event_index,
            message_id: msg.id.clone(),
            role: msg.message.role.clone(),
            parts: part_seeds(msg),
            preview,
            timestamp_ms: ts_ms,
        },
        _ => {
            let raw_type = entry_raw_type(entry);
            let raw_subtype = entry_raw_subtype(entry);
            CapsuleSeed::Raw {
                line_number,
                event_index,
                raw_type: String::from_str(raw_type),
                raw_subtype: String::from_str(raw_subtype),
                preview,
                timestamp_ms: ts_ms,
            }
        },
    }
}

/// Build capsule seeds in the compact form the timeline frontend reads, for entries read
/// from the given file lines (`line_numbers[k]` is the JSONL line of `entries[k]`): one
/// per entry that is not a session header, in order, with event indices from
/// `start_event_index`. The session id, file and agent path do not change the seeds.
pub fn build_capsule_seeds(
    entries: &[SessionEntry],
    line_numbers: &[i64],
    _session_id: &str,
    _jsonl_file: &str,
    _agent_path: &str,
    start_event_index: i64,
) -> (r: Vec<CapsuleSeed>)
    requires
        line_numbers@.len() == entries@.len(),
        start_event_index + entries@.len() <= i64::MAX,
    ensures
        r@.len() == event_positions(entries@).len(),
        forall|i: int|
            0 <= i < r@.len() ==> seed_matches(
                #[trigger] r@[i],
                entries@[event_positions(entries@)[i]],
                line_numbers@[event_positions(entries@)[i]] as int,
                start_event_index + i,
            ),
{
    let mut event_index = start_event_index;
    let mut seeds: Vec<CapsuleSeed> = Vec::new();
    let mut k: usize = 0;
    while k < entries.len()
        invariant
            line_numbers@.len() == entries@.len(),
            start_event_index + entries@.len() <= i64::MAX,
            k <= entries@.len(),
            event_index == start_event_index + seeds@.len(),
            seeds@.len() == event_positions(entries@.take(k as int)).len(),
            forall|i: int|
                0 <= i < seeds@.len() ==> seed_matches(
                    #[trigger] seeds@[i],
                    entries@[event_positions(entries@.take(k as int))[i]],
                    line_numbers@[event_positions(entries@.take(k as int))[i]] as int,
                    start_event_index + i,
                ),
        decreases entries.len() - k,
    {
        proof {
            lemma_event_positions_bounds(entries@.take(k as int));
            assert(entries@.take(k + 1).drop_last() =~= entries@.take(k as int));
            assert(entries@.take(k + 1).last() == entries@[k as int]);
        }
        let entry = &entries[k];
        let is_header = match entry {
            SessionEntry::SessionHeader(_) => true,
            _ => false,
        };
        if !is_header {
            let seed = seed_for(entry, line_numbers[k], event_index);
            seeds.push(seed);
            event_index = event_index + 1;
        }
        k = k + 1;
        proof {
            let prev = event_positions(entries@.take(k - 1));
            assert forall|i: int| 0 <= i < prev.len() implies entries@.take(k as int)[prev[i]] == entries@[prev[i]] by {}
        }
    }
    assert(entries@.take(entries@.len() as int) =~= entries@);
    seeds
}

/// Two seeds are the same but for event indices `shift` apart (their parts are compared
/// field by field where the seeds are compared).
pub open spec fn seeds_agree(a: CapsuleSeed, b: CapsuleSeed, shift: int) -> bool {
    match (a, b) {
        (
            CapsuleSeed::Message { line_number: l1, event_index: e1, message_id: m1, role: r1, parts: p1, preview: v1, timestamp_ms: t1 },
            CapsuleSeed::Message { line_number: l2, event_index: e2, message_id: m2, role: r2, parts: p2, preview: v2, timestamp_ms: t2 },
        ) => {
            &&& l1 == l2
            &&& e1 == e2 + shift
            &&& m1 == m2
            &&& r1 == r2
            &&& p1@.len() == p2@.len()
            &&& v1@ == v2@
            &&& t1 == t2
        },
        (
            CapsuleSeed::Raw { line_number: l1, event_index: e1, raw_type: k1, raw_subtype: s1, preview: v1, timestamp_ms: t1 },
            CapsuleSeed::Raw { line_number: l2, event_index: e2, raw_type: k2, raw_subtype: s2, preview: v2, timestamp_ms: t2 },
        ) => {
            &&& l1 == l2
            &&& e1 == e2 + shift
            &&& k1@ == k2@
            &&& s1@ == s2@
            &&& v1@ == v2@
            &&& t1 == t2
        },
        _ => false,
    }
}

proof fn lemma_part_seeds_equal(p: PartSeed, q: PartSeed, b: ContentBlock, ci: int)
    requires
        part_seed_matches(p, b, ci),
        part_seed_matches(q, b, ci),
    ensures
        p.part_type@ == q.part_type@ && p.tool == q.tool && p.state == q.state && p.error == q.error
            && p.element_type@ == q.element_type@ && p.content_index == q.content_index && p.tool_use_id == q.tool_use_id,
{
}

/// A seed depends on its entry, line and event index alone: two seeds of one entry on
/// one line agree but for their event indices. So the session id, file and agent path
/// given to `build_capsule_seeds` never change what it builds, and its start index only
/// shifts the event indices.
pub proof fn lemma_seeds_depend_on_entries_only(a: CapsuleSeed, b: CapsuleSeed, e: SessionEntry, line: int, i: int, j: int)
    requires
        seed_matches(a, e, line, i),
        seed_matches(b, e, line, j),
    ensures
        seeds_agree(a, b, i - j),
        a is Message ==> forall|k: int|
            0 <= k < a->Message_parts@.len() ==> {
                let p = #[trigger] a->Message_parts@[k];
                let q = b->Message_parts@[k];
                p.part_type@ == q.part_type@ && p.tool == q.tool && p.state == q.state && p.error == q.error
                    && p.element_type@ == q.element_type@ && p.content_index == q.content_index
                    && p.tool_use_id == q.tool_use_id
            },
{
    match e {
        SessionEntry::Message(m) => {
            assert forall|k: int| 0 <= k < a->Message_parts@.len() implies {
                let p = #[trigger] a->Message_parts@[k];
                let q = b->Message_parts@[k];
                p.part_type@ == q.part_type@ && p.tool == q.tool && p.state == q.state && p.error == q.error
                    && p.element_type@ == q.element_type@ && p.content_index == q.content_index
                    && p.tool_use_id == q.tool_use_id
            } by {
                lemma_part_seeds_equal(a->Message_parts@[k], b->Message_parts@[k], m.message.content@[k], k);
            }
        },
        _ => {},
    }
}

/// What `build_capsule_seeds` gives for `entries` read from `lines`, with event indices
/// from `start`.
pub open spec fn seeds_built(r: Seq<CapsuleSeed>, entries: Seq<SessionEntry>, lines: Seq<i64>, start: int) -> bool {
    &&& r.len() == event_positions(entries).len()
    &&& forall|i: int|
        0 <= i < r.len() ==> seed_matches(
            #[trigger] r[i],
            entries[event_positions(entries)[i]],
            lines[event_positions(entries)[i]] as int,
            start + i,
        )
}

/// Two seed lists built from the same entries and lines, whatever session id, file, agent
/// path and start index each build was given, have one length and agree seed by seed but
/// for event indices that differ by the difference of the start indices.
pub proof fn lemma_seed_lists_agree(
    a: Seq<CapsuleSeed>,
    b: Seq<CapsuleSeed>,
    entries: Seq<SessionEntry>,
    lines: Seq<i64>,
    n: int,
    m: int,
)
    requires
        seeds_built(a, entries, lines, n),
        seeds_built(b, entries, lines, m),
    ensures
        a.len() == b.len(),
        forall|j: int| 0 <= j < a.len() ==> seeds_agree(#[trigger] a[j], b[j], n - m),
{
    assert forall|j: int| 0 <= j < a.len() implies seeds_agree(#[trigger] a[j], b[j], n - m) by {
        let e = entries[event_positions(entries)[j]];
        let line = lines[event_positions(entries)[j]] as int;
        lemma_seeds_depend_on_entries_only(a[j], b[j], e, line, n + j, m + j);
    }
}

// ── The model of a session ─────────────────────────────────────────

/// The model that the last `model_change` entry names, if any.
pub open spec fn last_model_change(entries: Seq<SessionEntry>) -> Option<String>
    decreases entries.len(),
{
    if entries.len() == 0 {
        None
    } else {
        match entries.last() {
            SessionEntry::ModelChange(m) => Some(m.model),
            _ => last_model_change(entries.drop_last()),
        }
    }
}

/// The model a session ends with: the one its last `model_change` entry names, else
/// "Unknown".
pub open spec fn session_model_of(entries: Seq<SessionEntry>) -> Seq<char> {
    match last_model_change(entries) {
        Some(m) => m@,
        None => "Unknown"@,
    }
}

/// The model a session ends with.
pub fn session_model(entries: &[SessionEntry]) -> (r: String)
    ensures
        r@ == session_model_of(entries@),
{
    let mut k: usize = entries.len();
    assert(entries@.take(entries@.len() as int) =~= entries@);
    while k > 0
        invariant
            k <= entries@.len(),
            last_model_change(entries@) == last_model_change(entries@.take(k as int)),
        decreases k,
    {
        proof {
            assert(entries@.take(k as int).drop_last() =~= entries@.take(k - 1));
            assert(entries@.take(k as int).last() == entries@[k - 1]);
        }
        match &entries[k - 1] {
            SessionEntry::ModelChange(m) => {
                return m.model.clone();
            },
            _ => {},
        }
        k = k - 1;
    }
    assert(entries@.take(0) =~= Seq::<SessionEntry>::empty());
    String::from_str("Unknown")
}

// ── Session files ──────────────────────────────────────────────────

/// A parsed session file with its header and entries.
#[derive(Clone, Debug)]
pub struct ParsedSession {
    pub header: SessionHeader,
    pub entries: Vec<SessionEntry>,
    /// the file line (from 1) of each entry
    pub line_numbers: Vec<i64>,
    pub file_path: String,
    /// relative path from the sessions directory
    pub jsonl_file: String,
}

impl ParsedSession {
    /// Every entry has its line number.
    pub open spec fn well_formed(&self) -> bool {
        self.line_numbers@.len() == self.entries@.len()
    }
}

/// The first session header among the parsed lines.
pub open spec fn first_header(lines: Seq<Option<SessionEntry>>) -> Option<SessionHeader>
    decreases lines.len(),
{
    if lines.len() == 0 {
        None
    } else {
        match lines[0] {
            Some(SessionEntry::SessionHeader(h)) => Some(h),
            _ => first_header(lines.drop_first()),
        }
    }
}

/// The parsed lines that are entries other than session headers, in order.
pub open spec fn body_entries(lines: Seq<Option<SessionEntry>>) -> Seq<SessionEntry>
    decreases lines.len(),
{
    if lines.len() == 0 {
        Seq::empty()
    } else {
        let rest = body_entries(lines.drop_last());
        match lines.last() {
            Some(SessionEntry::SessionHeader(_)) => rest,
            Some(e) => rest.push(e),
            None => rest,
        }
    }
}

/// The file lines (from 1) of the parsed lines that are entries other than session
/// headers, in order.
pub open spec fn body_line_numbers(lines: Seq<Option<SessionEntry>>) -> Seq<int>
    decreases lines.len(),
{
    if lines.len() == 0 {
        Seq::empty()
    } else {
        let rest = body_line_numbers(lines.drop_last());
        match lines.last() {
            Some(SessionEntry::SessionHeader(_)) => rest,
            Some(_) => rest.push(lines.len() as int),
            None => rest,
        }
    }
}

/// The first header of `a + b`.
proof fn lemma_first_header_append(a: Seq<Option<SessionEntry>>, b: Seq<Option<SessionEntry>>)
    ensures
        first_header(a + b) == match first_header(a) {
            Some(h) => Some(h),
            None => first_header(b),
        },
    decreases a.len(),
{
    if a.len() > 0 {
        assert((a + b).drop_first() =~= a.drop_first() + b);
        lemma_first_header_append(a.drop_first(), b);
    } else {
        assert(a + b =~= b);
    }
}

/// Assembles a session from its lines, each already parsed (`None` where a line is
/// blank or does not parse), line `k + 1` of the file at index `k`. The first session
/// header wins; the other entries keep their line numbers; the session is refused when
/// there is no header.
pub fn assemble_session(
    lines: Vec<Option<SessionEntry>>,
    file_path: String,
    jsonl_file: String,
) -> (r: Result<ParsedSession, String>)
    requires
        lines@.len() <= i64::MAX,
    ensures
        match r {
            Ok(p) => {
                &&& first_header(lines@) == Some(p.header)
                &&& p.entries@ == body_entries(lines@)
                &&& p.well_formed()
                &&& forall|k: int| 0 <= k < p.line_numbers@.len() ==> p.line_numbers@[k] == body_line_numbers(lines@)[k]
                &&& p.file_path == file_path
                &&& p.jsonl_file == jsonl_file
            },
            Err(e) => {
                &&& first_header(lines@) is None
                &&& e@ == "No session header found in "@ + file_path@
            },
        },
{
    let mut header: Option<SessionHeader> = None;
    let mut entries: Vec<SessionEntry> = Vec::new();
    let mut line_numbers: Vec<i64> = Vec::new();
    let ghost all = lines@;
    let n_lines = lines.len();
    let mut idx: usize = 0;
    for line in it: lines.into_iter()
        invariant
            it.seq() == all,
            all.len() == n_lines,
            idx == it.index(),
            all.len() <= i64::MAX,
            entries@ == body_entries(all.take(it.index() as int)),
            line_numbers@.len() == body_line_numbers(all.take(it.index() as int)).len(),
            forall|k: int| 0 <= k < line_numbers@.len() ==> line_numbers@[k] == body_line_numbers(all.take(it.index() as int))[k],
            entries@.len() == line_numbers@.len(),
            header == first_header(all.take(it.index() as int)),
    {
        let ghost k = it.index() as int;
        let ghost prev_lines = body_line_numbers(all.take(k));
        proof {
            assert(all.take(k + 1).drop_last() =~= all.take(k));
            assert(all.take(k + 1) =~= all.take(k) + seq![all[k]]);
            lemma_first_header_append(all.take(k), seq![all[k]]);
            assert(seq![all[k]].drop_first() =~= Seq::<Option<SessionEntry>>::empty());
            assert(first_header(Seq::<Option<SessionEntry>>::empty()) is None);
            assert(first_header(seq![all[k]]) == match all[k] {
                Some(SessionEntry::SessionHeader(h)) => Some(h),
                _ => None,
            });
        }
        assert(line == all[k]);
        match line {
            Some(SessionEntry::SessionHeader(h)) => {
                if header.is_none() {
                    header = Some(h);
                }
            },
            Some(entry) => {
                entries.push(entry);
                line_numbers.push(idx as i64 + 1);
                proof {
                    assert(body_line_numbers(all.take(k + 1)) == prev_lines.push(k + 1));
                }
            },
            None => {},
        }
        idx = idx + 1;
    }
    proof {
        assert(all.take(all.len() as int) =~= all);
    }
    match header {
        Some(h) => Ok(ParsedSession { header: h, entries, line_numbers, file_path, jsonl_file }),
        None => Err(cat("No session header found in ", file_path.as_str())),
    }
}

/// The entries of an assembled session never include a session header.
pub proof fn lemma_body_entries_have_no_header(lines: Seq<Option<SessionEntry>>)
    ensures
        forall|i: int| 0 <= i < body_entries(lines).len() ==> !(#[trigger] body_entries(lines)[i] is SessionHeader),
        body_entries(lines).len() <= lines.len(),
    decreases lines.len(),
{
    if lines.len() > 0 {
        lemma_body_entries_have_no_header(lines.drop_last());
    }
}

} // verus!

use vstd::prelude::*;

verus! {

// ── Session log entries ────────────────────────────────────────────

/// A JSON value carried through unchanged, held as its compact JSON text.
#[derive(Clone, Debug)]
pub struct RawJson {
    pub text: String,
}

/// The `session` line that opens a session log.
#[derive(Clone, Debug)]
pub struct SessionHeader {
    pub version: Option<u32>,
    pub id: String,
    pub timestamp: String,
    pub cwd: String,
    pub title: Option<String>,
    pub title_source: Option<String>,
    pub parent_session: Option<String>,
}

/// One block of a message's content.
#[derive(Clone, Debug)]
pub enum ContentBlock {
    Text { text: String },
    Thinking { thinking: String, thinking_signature: Option<String> },
    ToolCall {
        id: String,
        name: String,
        arguments: RawJson,
        partial_args: Option<String>,
        stream_index: Option<u32>,
    },
    ToolUse { id: String, name: String, input: RawJson },
    ToolResult { tool_use_id: String, content: Option<RawJson>, is_error: bool },
    Image { source: RawJson },
    ImageUrl { image_url: RawJson },
}

/// Token usage reported for a message.
#[derive(Clone, Debug)]
pub struct Usage {
    pub input: Option<u64>,
    pub output: Option<u64>,
    pub cache_read: Option<u64>,
    pub cache_write: Option<u64>,
    pub cost: Option<RawJson>,
}

/// The message an entry carries: role, content blocks and model details.
#[derive(Clone, Debug)]
pub struct AgentMessage {
    pub role: String,
    pub content: Vec<ContentBlock>,
    pub usage: Option<Usage>,
    pub provider: Option<String>,
    pub model: Option<String>,
    pub api: Option<String>,
    pub timestamp: Option<i64>,
    pub tool_call_id: Option<String>,
    pub tool_name: Option<String>,
    pub is_error: Option<bool>,
}

/// One line of a session log, told apart by its `type` tag.
#[derive(Clone, Debug)]
pub enum SessionEntry {
    SessionHeader(SessionHeader),
    Title(TitleEntry),
    Message(MessageEntry),
    ThinkingLevelChange(ThinkingLevelChangeEntry),
    ModelChange(ModelChangeEntry),
    ServiceTierChange(ServiceTierChangeEntry),
    Compaction(CompactionEntry),
    BranchSummary(BranchSummaryEntry),
    Custom(CustomEntry),
    CustomMessage(CustomMessageEntry),
    Label(LabelEntry),
    TtsrInjection(TtsrInjectionEntry),
    SessionInit(SessionInitEntry),
    ModeChange(ModeChangeEntry),
    McpToolSelection(McpToolSelectionEntry),
    TitleChange(TitleChangeEntry),
}

/// A `title` line, which may come before the session header.
#[derive(Clone, Debug)]
pub struct TitleEntry {
    pub v: Option<u32>,
    pub title: String,
    pub source: Option<String>,
    pub updated_at: Option<String>,
    pub pad: Option<String>,
    pub id: Option<String>,
    pub parent_id: Option<String>,
    pub timestamp: Option<String>,
}

/// A `message` line.
#[derive(Clone, Debug)]
pub struct MessageEntry {
    pub id: String,
    pub parent_id: Option<String>,
    pub timestamp: String,
    pub message: AgentMessage,
}

/// A `thinking_level_change` line.
#[derive(Clone, Debug)]
pub struct ThinkingLevelChangeEntry {
    pub id: String,
    pub parent_id: Option<String>,
    pub timestamp: String,
    pub thinking_level: String,
    pub configured: Option<String>,
}

/// A `model_change` line.
#[derive(Clone, Debug)]
pub struct ModelChangeEntry {
    pub id: String,
    pub parent_id: Option<String>,
    pub timestamp: String,
    pub model: String,
    pub role: Option<String>,
}

/// A `service_tier_change` line.
#[derive(Clone, Debug)]
pub struct ServiceTierChangeEntry {
    pub id: String,
    pub parent_id: Option<String>,
    pub timestamp: String,
    pub service_tier: Option<RawJson>,
}

/// A `compaction` line.
#[derive(Clone, Debug)]
pub struct CompactionEntry {
    pub id: String,
    pub parent_id: Option<String>,
    pub timestamp: String,
    pub summary: Option<String>,
    pub short_summary: Option<String>,
    pub first_kept_entry_id: Option<String>,
    pub tokens_before: Option<u64>,
    pub details: Option<RawJson>,
    pub preserve_data: Option<RawJson>,
    pub from_extension: Option<bool>,
}

/// A `branch_summary` line.
#[derive(Clone, Debug)]
pub struct BranchSummaryEntry {
    pub id: String,
    pub parent_id: Option<String>,
    pub timestamp: String,
    pub from_id: String,
    pub summary: Option<String>,
    pub details: Option<RawJson>,
    pub from_extension: Option<bool>,
}

/// A `custom` line.
#[derive(Clone, Debug)]
pub struct CustomEntry {
    pub id: String,
    pub parent_id: Option<String>,
    pub timestamp: String,
    pub custom_type: String,
    pub data: Option<RawJson>,
}

/// A `custom_message` line.
#[derive(Clone, Debug)]
pub struct CustomMessageEntry {
    pub id: String,
    pub parent_id: Option<String>,
    pub timestamp: String,
    pub custom_type: String,
    pub content: Option<RawJson>,
    pub display: Option<bool>,
    pub details: Option<RawJson>,
    pub attribution: Option<String>,
}

/// A `label` line.
#[derive(Clone, Debug)]
pub struct LabelEntry {
    pub id: String,
    pub parent_id: Option<String>,
    pub timestamp: String,
    pub target_id: String,
    pub label: Option<String>,
}

/// A `ttsr_injection` line.
#[derive(Clone, Debug)]
pub struct TtsrInjectionEntry {
    pub id: String,
    pub parent_id: Option<String>,
    pub timestamp: String,
    pub injected_rules: Vec<String>,
}

/// A `session_init` line.
#[derive(Clone, Debug)]
pub struct SessionInitEntry {
    pub id: String,
    pub parent_id: Option<String>,
    pub timestamp: String,
    pub system_prompt: Option<String>,
    pub task: Option<String>,
    pub tools: Option<Vec<String>>,
    pub output_schema: Option<RawJson>,
    pub spawns: Option<String>,
    pub read_summarize: Option<bool>,
}

/// A `mode_change` line.
#[derive(Clone, Debug)]
pub struct ModeChangeEntry {
    pub id: String,
    pub parent_id: Option<String>,
    pub timestamp: String,
    pub mode: String,
    pub data: Option<RawJson>,
}

/// An `mcp_tool_selection` line.
#[derive(Clone, Debug)]
pub struct McpToolSelectionEntry {
    pub id: String,
    pub parent_id: Option<String>,
    pub timestamp: String,
    pub selected_tool_names: Vec<String>,
}

/// A `title_change` line.
#[derive(Clone, Debug)]
pub struct TitleChangeEntry {
    pub id: String,
    pub parent_id: Option<String>,
    pub timestamp: String,
    pub title: String,
    pub source: Option<String>,
}

// ── Views served to the frontend ───────────────────────────────────

/// Where an element of a session sits: file, line, event and track.
#[derive(Clone, Debug)]
pub struct NavAddress {
    pub session_id: String,
    pub jsonl_file: String,
    pub line_number: i64,
    pub event_index: i64,
    pub scope: String,
    pub agent_path: String,
    pub element_type: String,
    pub view: String,
    pub message_id: Option<String>,
    pub content_index: Option<i64>,
    pub tool_use_id: Option<String>,
    pub json_pointer: Option<String>,
    pub problem_id: Option<String>,
}

/// Token counts of a rendered part.
#[derive(Clone, Debug)]
pub struct TokenUsage {
    pub input: i64,
    pub output: i64,
    pub cache: Option<RawJson>,
}

/// The state attached to a rendered content part.
#[derive(Clone, Debug)]
pub enum PartState {
    /// `{"input": input}`
    Input { input: RawJson },
    /// `{"id": id, "name": name, "input": input}`
    Call { id: String, name: String, input: RawJson },
    /// `{"toolUseId": tool_use_id, "isError": is_error}`
    Result { tool_use_id: String, is_error: bool },
    /// A JSON value carried as is (image sources).
    Media { value: RawJson },
}

/// One rendered content part of a message.
#[derive(Clone, Debug)]
pub struct GenericPart {
    pub id: Option<String>,
    pub part_type: String,
    pub text: Option<String>,
    pub tool: Option<String>,
    pub state: Option<PartState>,
    pub tokens: Option<TokenUsage>,
    pub time_created: Option<i64>,
    pub synthetic: Option<bool>,
    pub nav: Option<NavAddress>,
}

/// The provider and model of a rendered message.
#[derive(Clone, Debug)]
pub struct ModelInfo {
    pub provider_id: Option<String>,
    pub model_id: Option<String>,
}

/// A summary attached to a rendered message.
#[derive(Clone, Debug)]
pub struct MessageSummary {
    pub title: Option<String>,
    pub diffs: Option<Vec<RawJson>>,
}

/// A message as the conversation view renders it.
#[derive(Clone, Debug)]
pub struct Message {
    pub id: Option<String>,
    pub role: String,
    pub agent: Option<String>,
    pub model: Option<ModelInfo>,
    pub model_id: Option<String>,
    pub time_created: Option<i64>,
    pub time_updated: Option<i64>,
    pub summary: Option<MessageSummary>,
    pub finish: Option<String>,
    pub parts: Vec<GenericPart>,
    pub nav: Option<NavAddress>,
}

/// One session in the listing.
#[derive(Clone, Debug)]
pub struct ConversationSummary {
    pub id: String,
    pub title: Option<String>,
    pub directory: Option<String>,
    pub git_branch: Option<String>,
    pub version: Option<String>,
    pub project_id: Option<String>,
    pub parent_id: Option<String>,
    pub time_created: Option<i64>,
    pub time_updated: Option<i64>,
    pub model: Option<String>,
    pub message_count: i64,
    pub subagent_count: i64,
    pub first_problem: Option<String>,
}

/// A non-message entry of a session, served as its raw JSON form.
#[derive(Clone, Debug)]
pub struct RawEvent {
    pub id: String,
    pub nav: NavAddress,
    pub raw: SessionEntry,
    pub parse_error: Option<String>,
}

/// A problem met while reading a session.
#[derive(Clone, Debug)]
pub struct ParserDiagnostic {
    pub id: String,
    pub severity: String,
    pub kind: String,
    pub message: String,
    pub nav: Option<NavAddress>,
    pub related: Vec<NavAddress>,
}

/// A problem flagged on an element of a session.
#[derive(Clone, Debug)]
pub struct ProblemFlag {
    pub id: String,
    pub severity: String,
    pub kind: String,
    pub reason: String,
    pub nav: NavAddress,
    pub json_path: Option<String>,
    pub related: Vec<NavAddress>,
}

/// A session as the conversation view loads it, with its subagent transcripts.
#[derive(Debug)]
pub struct ConversationExport {
    pub summary: ConversationSummary,
    pub messages: Vec<Message>,
    pub subagent_transcripts: Vec<ConversationExport>,
    pub task_part_id: Option<String>,
    pub task_message_id: Option<String>,
    pub parent_task_nav: Option<NavAddress>,
    pub parent_result_nav: Option<NavAddress>,
    pub previous_sibling_nav: Option<NavAddress>,
    pub next_sibling_nav: Option<NavAddress>,
    pub relationship_hint: Option<String>,
    pub relationship_basis: Option<String>,
    pub agent_type: Option<String>,
    pub agent_description: Option<String>,
    pub raw_events: Vec<RawEvent>,
    pub parser_diagnostics: Vec<ParserDiagnostic>,
    pub problem_flags: Vec<ProblemFlag>,
    pub nav_index: Vec<NavAddress>,
}

// ── Copies whose result is known to equal the original ─────────────

/// A copy of a JSON value.
pub fn copy_raw(j: &RawJson) -> (r: RawJson)
    ensures
        r == *j,
{
    RawJson { text: j.text.clone() }
}

/// A copy of an optional string.
pub fn copy_opt_string(o: &Option<String>) -> (r: Option<String>)
    ensures
        r == *o,
{
    match o {
        Some(s) => Some(s.clone()),
        None => None,
    }
}

/// A copy of an address.
pub fn copy_nav(n: &NavAddress) -> (r: NavAddress)
    ensures
        r == *n,
{
    NavAddress {
        session_id: n.session_id.clone(),
        jsonl_file: n.jsonl_file.clone(),
        line_number: n.line_number,
        event_index: n.event_index,
        scope: n.scope.clone(),
        agent_path: n.agent_path.clone(),
        element_type: n.element_type.clone(),
        view: n.view.clone(),
        message_id: copy_opt_string(&n.message_id),
        content_index: n.content_index,
        tool_use_id: copy_opt_string(&n.tool_use_id),
        json_pointer: copy_opt_string(&n.json_pointer),
        problem_id: copy_opt_string(&n.problem_id),
    }
}

/// A copy of an optional address.
pub fn copy_opt_nav(n: &Option<NavAddress>) -> (r: Option<NavAddress>)
    ensures
        r == *n,
{
    match n {
        Some(x) => Some(copy_nav(x)),
        None => None,
    }
}

/// A copy of a session summary.
pub fn copy_summary(s: &ConversationSummary) -> (r: ConversationSummary)
    ensures
        r == *s,
{
    ConversationSummary {
        id: s.id.clone(),
        title: copy_opt_string(&s.title),
        directory: copy_opt_string(&s.directory),
        git_branch: copy_opt_string(&s.git_branch),
        version: copy_opt_string(&s.version),
        project_id: copy_opt_string(&s.project_id),
        parent_id: copy_opt_string(&s.parent_id),
        time_created: s.time_created,
        time_updated: s.time_updated,
        model: copy_opt_string(&s.model),
        message_count: s.message_count,
        subagent_count: s.subagent_count,
        first_problem: copy_opt_string(&s.first_problem),
    }
}

} // verus!

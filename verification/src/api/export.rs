use vstd::prelude::*;

use crate::json::items_view;
use crate::json::json_array_item_members;
use crate::json::json_array_items;
use crate::json::json_as_string;
use crate::json::json_string_value;
use crate::json::lookup_member;
use crate::json::member_str;
use crate::json::opt_view;
use crate::models::AgentMessage;
use crate::models::ConversationExport;
use crate::models::ConversationSummary;
use crate::models::RawEvent;
use crate::models::SessionEntry;
use crate::models::SessionHeader;
use crate::session::parser::ParsedSession;
use crate::session::parser::event_positions;
use crate::session::parser::session_model;
use crate::session::parser::session_model_of;
use crate::session::parser::lemma_event_positions_bounds;
use crate::session::store::decode_session_dir;
use crate::session::store::decoded_dir;
use crate::timefmt::rfc3339_millis;
use crate::timefmt::rfc3339_to_millis;
use crate::paths::parent_dir_name;
use crate::paths::parent_dir_name_of;
use crate::models::ContentBlock;
use crate::models::GenericPart;
use crate::models::Message;
use crate::models::MessageEntry;
use crate::models::ModelInfo;
use crate::models::NavAddress;
use crate::models::PartState;
use crate::models::RawJson;
use crate::models::copy_nav;
use crate::models::copy_opt_string;
use crate::models::copy_raw;
use crate::session::parser::descriptor_type;
use crate::session::parser::or_default;
use crate::text::cat;
use crate::text::chars_of;
use crate::text::contains;
use crate::text::contains_chars;
use crate::text::ends_with;
use crate::text::ends_with_chars;
use crate::text::decimal;
use crate::text::decimal_string;
use crate::text::join;
use crate::text::join_strings;

verus! {

// ── Content parts ──────────────────────────────────────────────────

/// Whether an optional string is present and reads `s`.
pub open spec fn opt_text_is(o: Option<String>, s: Seq<char>) -> bool {
    match o {
        Some(x) => x@ == s,
        None => false,
    }
}

/// The present items, in order.
pub open spec fn somes(items: Seq<Option<Seq<char>>>) -> Seq<Seq<char>>
    decreases items.len(),
{
    if items.len() == 0 {
        Seq::empty()
    } else {
        let rest = somes(items.drop_last());
        match items.last() {
            Some(t) => rest.push(t),
            None => rest,
        }
    }
}

/// The string `"text"` member of each array item, where the item is an object that has one.
pub open spec fn item_texts(items: Seq<Option<Seq<(Seq<char>, Option<Seq<char>>)>>>) -> Seq<Option<Seq<char>>> {
    items.map_values(
        |o: Option<Seq<(Seq<char>, Option<Seq<char>>)>>|
            match o {
                Some(m) => member_str(m, "text"@),
                None => None,
            },
    )
}

/// The text of a tool result's content: for a JSON array, the string `"text"` members of
/// its items joined by newlines; otherwise the content itself when it is a JSON string.
pub open spec fn tool_result_text(content: Option<RawJson>) -> Option<Seq<char>> {
    match content {
        None => None,
        Some(c) => match json_array_item_members(c.text@) {
            Some(items) => Some(join(somes(item_texts(items)), "\n"@)),
            None => json_string_value(c.text@),
        },
    }
}

/// The text that a rendered part shows for a content block.
pub open spec fn part_text_of(b: ContentBlock) -> Option<Seq<char>> {
    match b {
        ContentBlock::Text { text } => Some(text@),
        ContentBlock::Thinking { thinking, .. } => Some(thinking@),
        ContentBlock::ToolResult { content, .. } => tool_result_text(content),
        _ => None,
    }
}

/// The tool name that a rendered part shows for a content block.
pub open spec fn part_tool_of(b: ContentBlock) -> Option<String> {
    match b {
        ContentBlock::ToolCall { name, .. } => Some(name),
        ContentBlock::ToolUse { name, .. } => Some(name),
        _ => None,
    }
}

/// The state that a rendered part carries for a content block.
pub open spec fn part_state_of(b: ContentBlock) -> Option<PartState> {
    match b {
        ContentBlock::ToolCall { id, name, arguments, .. } => Some(PartState::Call { id, name, input: arguments }),
        ContentBlock::ToolUse { id, name, input } => Some(PartState::Call { id, name, input }),
        ContentBlock::ToolResult { tool_use_id, is_error, .. } => Some(PartState::Result { tool_use_id, is_error }),
        ContentBlock::Image { source } => Some(PartState::Media { value: source }),
        ContentBlock::ImageUrl { image_url } => Some(PartState::Media { value: image_url }),
        _ => None,
    }
}

/// The tool call that a content block belongs to: its own id for calls, the called id
/// for results.
pub open spec fn part_tool_use_id_of(b: ContentBlock) -> Option<String> {
    match b {
        ContentBlock::ToolCall { id, .. } => Some(id),
        ContentBlock::ToolUse { id, .. } => Some(id),
        ContentBlock::ToolResult { tool_use_id, .. } => Some(tool_use_id),
        _ => None,
    }
}

/// `p` addresses content part `ci` of the element that `n` addresses.
pub open spec fn is_part_nav(p: NavAddress, n: NavAddress, ci: int, tool_use_id: Option<String>) -> bool {
    &&& p.session_id == n.session_id
    &&& p.jsonl_file == n.jsonl_file
    &&& p.line_number == n.line_number
    &&& p.event_index == n.event_index
    &&& p.scope == n.scope
    &&& p.agent_path == n.agent_path
    &&& p.element_type@ == "part"@
    &&& p.view == n.view
    &&& p.message_id == n.message_id
    &&& p.content_index == Some(ci as i64)
    &&& p.tool_use_id == tool_use_id
    &&& p.json_pointer == n.json_pointer
    &&& p.problem_id == n.problem_id
}

/// `p` is the rendered form of content block `b`, the `ci`-th of a message created at
/// `ts` whose address is `nav`.
pub open spec fn part_converted(p: GenericPart, b: ContentBlock, ci: int, ts: Option<i64>, nav: Option<NavAddress>) -> bool {
    &&& opt_text_is(p.id, "part-"@ + decimal(ci))
    &&& p.part_type@ == descriptor_type(b)
    &&& opt_view(p.text) == part_text_of(b)
    &&& p.tool == part_tool_of(b)
    &&& p.state == part_state_of(b)
    &&& p.tokens is None
    &&& p.time_created == ts
    &&& p.synthetic is None
    &&& match nav {
        Some(n) => match p.nav {
            Some(pn) => is_part_nav(pn, n, ci, part_tool_use_id_of(b)),
            None => false,
        },
        None => p.nav is None,
    }
}

/// The model of a message: the provider (or "") and the model, when it names a model.
pub open spec fn model_info_is(o: Option<ModelInfo>, m: AgentMessage) -> bool {
    match m.model {
        Some(md) => match o {
            Some(mi) => opt_text_is(mi.provider_id, or_default(m.provider, ""@)) && mi.model_id == Some(md),
            None => false,
        },
        None => o is None,
    }
}

/// `out` is the rendered form of message entry `e`, with address `nav`.
pub open spec fn message_converted(out: Message, e: MessageEntry, nav: Option<NavAddress>) -> bool {
    &&& out.id == Some(e.id)
    &&& out.role == e.message.role
    &&& out.agent is None
    &&& model_info_is(out.model, e.message)
    &&& out.model_id == e.message.model
    &&& out.time_created == e.message.timestamp
    &&& out.time_updated == e.message.timestamp
    &&& out.summary is None
    &&& out.finish is None
    &&& out.parts@.len() == e.message.content@.len()
    &&& forall|ci: int|
        0 <= ci < out.parts@.len() ==> part_converted(
            #[trigger] out.parts@[ci],
            e.message.content@[ci],
            ci,
            e.message.timestamp,
            nav,
        )
    &&& out.nav == nav
}

/// A converted message has one part per content block, in order, and each part shows
/// what its block holds: a text or thinking block its text, a tool call or tool use its
/// name and a call state with its id, name and input, a tool result a result state with
/// the called id and error flag, and an image or image URL block its source as media
/// state.
pub proof fn lemma_converted_parts_carry_block_payloads(out: Message, e: MessageEntry, nav: Option<NavAddress>)
    requires
        message_converted(out, e, nav),
    ensures
        out.parts@.len() == e.message.content@.len(),
        forall|ci: int|
            0 <= ci < out.parts@.len() ==> {
                let p = #[trigger] out.parts@[ci];
                match e.message.content@[ci] {
                    ContentBlock::Text { text } => p.part_type@ == "text"@ && opt_view(p.text) == Some(text@)
                        && p.state is None,
                    ContentBlock::Thinking { thinking, .. } => p.part_type@ == "reasoning"@ && opt_view(p.text) == Some(
                        thinking@,
                    ) && p.state is None,
                    ContentBlock::ToolCall { id, name, arguments, .. } => p.part_type@ == "tool"@ && p.tool == Some(
                        name,
                    ) && p.state == Some(PartState::Call { id, name, input: arguments }),
                    ContentBlock::ToolUse { id, name, input } => p.part_type@ == "tool"@ && p.tool == Some(name)
                        && p.state == Some(PartState::Call { id, name, input }),
                    ContentBlock::ToolResult { tool_use_id, is_error, .. } => p.part_type@ == "tool_result"@
                        && p.state == Some(PartState::Result { tool_use_id, is_error }),
                    ContentBlock::Image { source } => p.part_type@ == "image"@ && p.state == Some(
                        PartState::Media { value: source },
                    ),
                    ContentBlock::ImageUrl { image_url } => p.part_type@ == "image"@ && p.state == Some(
                        PartState::Media { value: image_url },
                    ),
                }
            },
{
    assert forall|ci: int| 0 <= ci < out.parts@.len() implies {
        let p = #[trigger] out.parts@[ci];
        match e.message.content@[ci] {
            ContentBlock::Text { text } => p.part_type@ == "text"@ && opt_view(p.text) == Some(text@) && p.state is None,
            ContentBlock::Thinking { thinking, .. } => p.part_type@ == "reasoning"@ && opt_view(p.text) == Some(thinking@)
                && p.state is None,
            ContentBlock::ToolCall { id, name, arguments, .. } => p.part_type@ == "tool"@ && p.tool == Some(name)
                && p.state == Some(PartState::Call { id, name, input: arguments }),
            ContentBlock::ToolUse { id, name, input } => p.part_type@ == "tool"@ && p.tool == Some(name) && p.state
                == Some(PartState::Call { id, name, input }),
            ContentBlock::ToolResult { tool_use_id, is_error, .. } => p.part_type@ == "tool_result"@ && p.state == Some(
                PartState::Result { tool_use_id, is_error },
            ),
            ContentBlock::Image { source } => p.part_type@ == "image"@ && p.state == Some(PartState::Media { value: source }),
            ContentBlock::ImageUrl { image_url } => p.part_type@ == "image"@ && p.state == Some(
                PartState::Media { value: image_url },
            ),
        }
    } by {
        assert(part_converted(out.parts@[ci], e.message.content@[ci], ci, e.message.timestamp, nav));
    }
}

fn present_texts(items: &Vec<Option<Vec<(String, Option<String>)>>>) -> (r: Vec<String>)
    ensures
        r@.map_values(|s: String| s@) == somes(item_texts(items_view(items@))),
{
    let ghost views = item_texts(items_view(items@));
    let mut out: Vec<String> = Vec::new();
    let mut i: usize = 0;
    while i < items.len()
        invariant
            i <= items@.len(),
            views == item_texts(items_view(items@)),
            out@.map_values(|s: String| s@) == somes(views.take(i as int)),
        decreases items.len() - i,
    {
        proof {
            assert(views.take(i + 1).drop_last() =~= views.take(i as int));
        }
        let text = match &items[i] {
            Some(m) => lookup_member(m, "text"),
            None => None,
        };
        proof {
            reveal_strlit("text");
            assert(opt_view(text) == views[i as int]);
        }
        match text {
            Some(t) => {
                let ghost before = out@.map_values(|s: String| s@);
                out.push(t);
                assert(out@.map_values(|s: String| s@) =~= before.push(t@));
            },
            None => {},
        }
        i = i + 1;
    }
    assert(views.take(items@.len() as int) =~= views);
    out
}

/// The text of a tool result's content.
fn tool_result_text_of(content: &Option<RawJson>) -> (r: Option<String>)
    ensures
        opt_view(r) == tool_result_text(*content),
{
    match content {
        None => None,
        Some(c) => match json_array_items(c.text.as_str()) {
            Some(items) => {
                let texts = present_texts(&items);
                proof {
                    reveal_strlit("\n");
                }
                Some(join_strings(&texts, "\n"))
            },
            None => json_as_string(c.text.as_str()),
        },
    }
}

/// The address of part `ci` of the element that `n` addresses.
fn part_nav(n: &NavAddress, ci: usize, tool_use_id: &Option<String>) -> (r: NavAddress)
    ensures
        is_part_nav(r, *n, ci as int, *tool_use_id),
{
    let mut p = copy_nav(n);
    p.content_index = Some(ci as i64);
    p.element_type = String::from_str("part");
    p.tool_use_id = copy_opt_string(tool_use_id);
    p
}

fn convert_part(block: &ContentBlock, ci: usize, ts: Option<i64>, nav: &Option<NavAddress>) -> (r: GenericPart)
    ensures
        part_converted(r, *block, ci as int, ts, *nav),
{
    let (part_type, text, tool, state, tool_use_id): (&str, Option<String>, Option<String>, Option<PartState>, Option<String>) =
        match block {
        ContentBlock::Text { text } => ("text", Some(text.clone()), None, None, None),
        ContentBlock::Thinking { thinking, .. } => ("reasoning", Some(thinking.clone()), None, None, None),
        ContentBlock::ToolCall { id, name, arguments, .. } => (
            "tool",
            None,
            Some(name.clone()),
            Some(PartState::Call { id: id.clone(), name: name.clone(), input: copy_raw(arguments) }),
            Some(id.clone()),
        ),
        ContentBlock::ToolUse { id, name, input } => (
            "tool",
            None,
            Some(name.clone()),
            Some(PartState::Call { id: id.clone(), name: name.clone(), input: copy_raw(input) }),
            Some(id.clone()),
        ),
        ContentBlock::ToolResult { tool_use_id, content, is_error } => (
            "tool_result",
            tool_result_text_of(content),
            None,
            Some(PartState::Result { tool_use_id: tool_use_id.clone(), is_error: *is_error }),
            Some(tool_use_id.clone()),
        ),
        ContentBlock::Image { source } => ("image", None, None, Some(PartState::Media { value: copy_raw(source) }), None),
        ContentBlock::ImageUrl { image_url } => (
            "image",
            None,
            None,
            Some(PartState::Media { value: copy_raw(image_url) }),
            None,
        ),
    };
    let digits = decimal_string(ci as i128);
    let id = cat("part-", digits.as_str());
    let pnav = match nav {
        Some(n) => Some(part_nav(n, ci, &tool_use_id)),
        None => None,
    };
    GenericPart {
        id: Some(id),
        part_type: String::from_str(part_type),
        text,
        tool,
        state,
        tokens: None,
        time_created: ts,
        synthetic: None,
        nav: pnav,
    }
}

/// The rendered form of a message entry: one part per content block, each with its own
/// address inside the message's.
pub fn convert_message(entry: &MessageEntry, nav: Option<NavAddress>) -> (r: Message)
    ensures
        message_converted(r, *entry, nav),
{
    let ts = entry.message.timestamp;
    let mut parts: Vec<GenericPart> = Vec::new();
    let mut ci: usize = 0;
    while ci < entry.message.content.len()
        invariant
            ci <= entry.message.content@.len(),
            ts == entry.message.timestamp,
            parts@.len() == ci,
            forall|k: int|
                0 <= k < ci ==> part_converted(
                    #[trigger] parts@[k],
                    entry.message.content@[k],
                    k,
                    entry.message.timestamp,
                    nav,
                ),
        decreases entry.message.content.len() - ci,
    {
        let part = convert_part(&entry.message.content[ci], ci, ts, &nav);
        parts.push(part);
        ci = ci + 1;
    }
    let model = match &entry.message.model {
        Some(m) => {
            let provider = match &entry.message.provider {
                Some(p) => p.clone(),
                None => String::new(),
            };
            proof {
                reveal_strlit("");
            }
            assert(provider@ == or_default(entry.message.provider, ""@));
            let mc = m.clone();
            assert(entry.message.model == Some(mc));
            Some(ModelInfo { provider_id: Some(provider), model_id: Some(mc) })
        },
        None => None,
    };
    let r = Message {
        id: Some(entry.id.clone()),
        role: entry.message.role.clone(),
        agent: None,
        model,
        model_id: copy_opt_string(&entry.message.model),
        time_created: ts,
        time_updated: ts,
        summary: None,
        finish: None,
        parts,
        nav,
    };
    r
}


// ── Conversation exports ───────────────────────────────────────────

/// `n` addresses event `ei` on line `line` of a session file, as rendered.
pub open spec fn is_event_nav(
    n: NavAddress,
    session_id: Seq<char>,
    jsonl_file: Seq<char>,
    line: int,
    ei: int,
    scope: Seq<char>,
    agent_path: Seq<char>,
) -> bool {
    &&& n.session_id@ == session_id
    &&& n.jsonl_file@ == jsonl_file
    &&& n.line_number == line
    &&& n.event_index == ei
    &&& n.scope@ == scope
    &&& n.agent_path@ == agent_path
    &&& n.element_type@ == "event"@
    &&& n.view@ == "rendered"@
    &&& n.message_id is None
    &&& n.content_index is None
    &&& n.tool_use_id is None
    &&& n.json_pointer is None
    &&& n.problem_id is None
}

/// The `"id"` member of an entry's JSON form, or "" where it has none.
pub open spec fn entry_id_of(e: SessionEntry) -> Seq<char> {
    match e {
        SessionEntry::SessionHeader(h) => h.id@,
        SessionEntry::Title(t) => or_default(t.id, ""@),
        SessionEntry::Message(m) => m.id@,
        SessionEntry::ThinkingLevelChange(x) => x.id@,
        SessionEntry::ModelChange(x) => x.id@,
        SessionEntry::ServiceTierChange(x) => x.id@,
        SessionEntry::Compaction(x) => x.id@,
        SessionEntry::BranchSummary(x) => x.id@,
        SessionEntry::Custom(x) => x.id@,
        SessionEntry::CustomMessage(x) => x.id@,
        SessionEntry::Label(x) => x.id@,
        SessionEntry::TtsrInjection(x) => x.id@,
        SessionEntry::SessionInit(x) => x.id@,
        SessionEntry::ModeChange(x) => x.id@,
        SessionEntry::McpToolSelection(x) => x.id@,
        SessionEntry::TitleChange(x) => x.id@,
    }
}

/// The `"id"` member of an entry's JSON form, or "" where it has none.
pub fn entry_id(e: &SessionEntry) -> (r: String)
    ensures
        r@ == entry_id_of(*e),
{
    proof {
        reveal_strlit("");
    }
    match e {
        SessionEntry::SessionHeader(h) => h.id.clone(),
        SessionEntry::Title(t) => match &t.id {
            Some(i) => i.clone(),
            None => String::new(),
        },
        SessionEntry::Message(m) => m.id.clone(),
        SessionEntry::ThinkingLevelChange(x) => x.id.clone(),
        SessionEntry::ModelChange(x) => x.id.clone(),
        SessionEntry::ServiceTierChange(x) => x.id.clone(),
        SessionEntry::Compaction(x) => x.id.clone(),
        SessionEntry::BranchSummary(x) => x.id.clone(),
        SessionEntry::Custom(x) => x.id.clone(),
        SessionEntry::CustomMessage(x) => x.id.clone(),
        SessionEntry::Label(x) => x.id.clone(),
        SessionEntry::TtsrInjection(x) => x.id.clone(),
        SessionEntry::SessionInit(x) => x.id.clone(),
        SessionEntry::ModeChange(x) => x.id.clone(),
        SessionEntry::McpToolSelection(x) => x.id.clone(),
        SessionEntry::TitleChange(x) => x.id.clone(),
    }
}

/// For each message entry: its index among the entries and its event index (entries
/// that are not session headers count as events, in order).
pub open spec fn message_slots(entries: Seq<SessionEntry>) -> Seq<(int, int)>
    decreases entries.len(),
{
    if entries.len() == 0 {
        Seq::empty()
    } else {
        let rest = message_slots(entries.drop_last());
        if entries.last() is Message {
            rest.push((entries.len() - 1, event_positions(entries.drop_last()).len() as int))
        } else {
            rest
        }
    }
}

/// For each entry that is neither a message nor a session header: its index among the
/// entries and its event index.
pub open spec fn raw_slots(entries: Seq<SessionEntry>) -> Seq<(int, int)>
    decreases entries.len(),
{
    if entries.len() == 0 {
        Seq::empty()
    } else {
        let rest = raw_slots(entries.drop_last());
        if !(entries.last() is Message) && !(entries.last() is SessionHeader) {
            rest.push((entries.len() - 1, event_positions(entries.drop_last()).len() as int))
        } else {
            rest
        }
    }
}

/// `out` is the rendered message of entry `e`, event `ei` on line `line`.
pub open spec fn message_at(
    out: Message,
    e: SessionEntry,
    session_id: Seq<char>,
    jsonl_file: Seq<char>,
    line: int,
    ei: int,
    scope: Seq<char>,
    agent_path: Seq<char>,
) -> bool {
    match e {
        SessionEntry::Message(m) => match out.nav {
            Some(n) => is_event_nav(n, session_id, jsonl_file, line, ei, scope, agent_path)
                && message_converted(out, m, Some(n)),
            None => false,
        },
        _ => false,
    }
}

/// `out` is the raw event of entry `e`, event `ei` on line `line`.
pub open spec fn raw_event_at(
    out: RawEvent,
    e: SessionEntry,
    session_id: Seq<char>,
    jsonl_file: Seq<char>,
    line: int,
    ei: int,
    scope: Seq<char>,
    agent_path: Seq<char>,
) -> bool {
    &&& out.id@ == entry_id_of(e)
    &&& is_event_nav(out.nav, session_id, jsonl_file, line, ei, scope, agent_path)
    &&& out.raw == e
    &&& out.parse_error is None
}

/// `s` summarizes a session with header `h`, `n` entries and `subagents` subagent
/// transcripts, served under `session_id` from directory `dir`, ending with `model`.
pub open spec fn export_summary_is(
    s: ConversationSummary,
    h: SessionHeader,
    n: int,
    session_id: Seq<char>,
    dir: Seq<char>,
    model: Seq<char>,
    subagents: int,
) -> bool {
    &&& s.id@ == session_id
    &&& s.title == h.title
    &&& opt_text_is(s.directory, dir)
    &&& s.git_branch is None
    &&& match h.version {
        Some(v) => opt_text_is(s.version, decimal(v as int)),
        None => s.version is None,
    }
    &&& s.project_id is None
    &&& s.parent_id == h.parent_session
    &&& s.time_created == rfc3339_to_millis(h.timestamp@)
    &&& s.time_updated == rfc3339_to_millis(h.timestamp@)
    &&& opt_text_is(s.model, model)
    &&& s.message_count == n
    &&& s.subagent_count == subagents
    &&& s.first_problem is None
}

/// The address of event `event_index` on line `line_number`, as rendered.
pub fn event_nav(
    session_id: &str,
    jsonl_file: &str,
    line_number: i64,
    event_index: i64,
    scope: &str,
    agent_path: &str,
) -> (r: NavAddress)
    ensures
        is_event_nav(r, session_id@, jsonl_file@, line_number as int, event_index as int, scope@, agent_path@),
{
    NavAddress {
        session_id: String::from_str(session_id),
        jsonl_file: String::from_str(jsonl_file),
        line_number,
        event_index,
        scope: String::from_str(scope),
        agent_path: String::from_str(agent_path),
        element_type: String::from_str("event"),
        view: String::from_str("rendered"),
        message_id: None,
        content_index: None,
        tool_use_id: None,
        json_pointer: None,
        problem_id: None,
    }
}

/// The export of a parsed session: its summary, its messages rendered and its other
/// entries as raw events, each addressed by its file line and its event index (session
/// headers take none), with the given subagent exports.
///
/// `home` is the home directory and `tmp` the temporary directory that directory names
/// are decoded against.
pub fn conversation_export_from_parsed(
    parsed: ParsedSession,
    session_id: &str,
    home: &str,
    tmp: &str,
    agent_path: &str,
    scope: &str,
    subagents: Vec<ConversationExport>,
) -> (r: ConversationExport)
    requires
        parsed.well_formed(),
        parsed.entries@.len() <= i64::MAX,
        subagents@.len() <= i64::MAX,
    ensures
        export_summary_is(
            r.summary,
            parsed.header,
            parsed.entries@.len() as int,
            session_id@,
            decoded_dir(parent_dir_name_of(parsed.file_path@), home@, tmp@),
            session_model_of(parsed.entries@),
            subagents@.len() as int,
        ),
        r.messages@.len() == message_slots(parsed.entries@).len(),
        forall|i: int|
            0 <= i < r.messages@.len() ==> message_at(
                #[trigger] r.messages@[i],
                parsed.entries@[message_slots(parsed.entries@)[i].0],
                session_id@,
                parsed.jsonl_file@,
                parsed.line_numbers@[message_slots(parsed.entries@)[i].0] as int,
                message_slots(parsed.entries@)[i].1,
                scope@,
                agent_path@,
            ),
        r.raw_events@.len() == raw_slots(parsed.entries@).len(),
        forall|i: int|
            0 <= i < r.raw_events@.len() ==> raw_event_at(
                #[trigger] r.raw_events@[i],
                parsed.entries@[raw_slots(parsed.entries@)[i].0],
                session_id@,
                parsed.jsonl_file@,
                parsed.line_numbers@[raw_slots(parsed.entries@)[i].0] as int,
                raw_slots(parsed.entries@)[i].1,
                scope@,
                agent_path@,
            ),
        r.subagent_transcripts@ == subagents@,
        r.task_part_id is None,
        r.task_message_id is None,
        r.parent_task_nav is None,
        r.parent_result_nav is None,
        r.previous_sibling_nav is None,
        r.next_sibling_nav is None,
        r.relationship_hint is None,
        r.relationship_basis is None,
        opt_text_is(r.agent_type, agent_path@),
        r.agent_description is None,
        r.parser_diagnostics@.len() == 0,
        r.problem_flags@.len() == 0,
        r.nav_index@.len() == 0,
{
    let ParsedSession { header, entries, line_numbers, file_path, jsonl_file } = parsed;
    let ghost all = entries@;
    let ghost lines = line_numbers@;
    let dir_name = parent_dir_name(file_path.as_str());
    let dir = decode_session_dir(dir_name.as_str(), home, tmp);
    let ts = rfc3339_millis(header.timestamp.as_str());
    let version = match header.version {
        Some(v) => Some(decimal_string(v as i128)),
        None => None,
    };
    let model = session_model(entries.as_slice());
    let n_entries = entries.len();
    let n_subagents = subagents.len();
    let summary = ConversationSummary {
        id: String::from_str(session_id),
        title: header.title,
        directory: Some(dir),
        git_branch: None,
        version,
        project_id: None,
        parent_id: header.parent_session,
        time_created: ts,
        time_updated: ts,
        model: Some(model),
        message_count: n_entries as i64,
        subagent_count: n_subagents as i64,
        first_problem: None,
    };
    let mut messages: Vec<Message> = Vec::new();
    let mut raw_events: Vec<RawEvent> = Vec::new();
    let mut event_index: i64 = 0;
    let mut idx: usize = 0;
    for entry in it: entries.into_iter()
        invariant
            it.seq() == all,
            idx == it.index(),
            all.len() == n_entries,
            lines.len() == all.len(),
            line_numbers@ == lines,
            all.len() <= i64::MAX,
            event_index == event_positions(all.take(it.index() as int)).len(),
            messages@.len() == message_slots(all.take(it.index() as int)).len(),
            forall|i: int|
                0 <= i < messages@.len() ==> message_at(
                    #[trigger] messages@[i],
                    all[message_slots(all.take(it.index() as int))[i].0],
                    session_id@,
                    jsonl_file@,
                    lines[message_slots(all.take(it.index() as int))[i].0] as int,
                    message_slots(all.take(it.index() as int))[i].1,
                    scope@,
                    agent_path@,
                ),
            raw_events@.len() == raw_slots(all.take(it.index() as int)).len(),
            forall|i: int|
                0 <= i < raw_events@.len() ==> raw_event_at(
                    #[trigger] raw_events@[i],
                    all[raw_slots(all.take(it.index() as int))[i].0],
                    session_id@,
                    jsonl_file@,
                    lines[raw_slots(all.take(it.index() as int))[i].0] as int,
                    raw_slots(all.take(it.index() as int))[i].1,
                    scope@,
                    agent_path@,
                ),
    {
        let ghost k = it.index() as int;
        proof {
            lemma_event_positions_bounds(all.take(k));
            lemma_slots_bounds(all.take(k));
            assert(all.take(k + 1).drop_last() =~= all.take(k));
            assert(all.take(k + 1).last() == all[k]);
        }
        assert(entry == all[k]);
        let is_header = match &entry {
            SessionEntry::SessionHeader(_) => true,
            _ => false,
        };
        if !is_header {
            let line_number = line_numbers[idx];
            let nav = event_nav(session_id, jsonl_file.as_str(), line_number, event_index, scope, agent_path);
            match entry {
                SessionEntry::Message(m) => {
                    let msg = convert_message(&m, Some(nav));
                    messages.push(msg);
                },
                other => {
                    let id = entry_id(&other);
                    raw_events.push(RawEvent { id, nav, raw: other, parse_error: None });
                },
            }
            event_index = event_index + 1;
        }
        idx = idx + 1;
    }
    proof {
        assert(all.take(all.len() as int) =~= all);
    }
    ConversationExport {
        summary,
        messages,
        subagent_transcripts: subagents,
        task_part_id: None,
        task_message_id: None,
        parent_task_nav: None,
        parent_result_nav: None,
        previous_sibling_nav: None,
        next_sibling_nav: None,
        relationship_hint: None,
        relationship_basis: None,
        agent_type: Some(String::from_str(agent_path)),
        agent_description: None,
        raw_events,
        parser_diagnostics: Vec::new(),
        problem_flags: Vec::new(),
        nav_index: Vec::new(),
    }
}

/// Slots point at entries of the right kind, before the end.
pub proof fn lemma_slots_bounds(entries: Seq<SessionEntry>)
    ensures
        forall|i: int|
            0 <= i < message_slots(entries).len() ==> 0 <= #[trigger] message_slots(entries)[i].0 < entries.len()
                && entries[message_slots(entries)[i].0] is Message,
        forall|i: int|
            0 <= i < raw_slots(entries).len() ==> 0 <= #[trigger] raw_slots(entries)[i].0 < entries.len()
                && !(entries[raw_slots(entries)[i].0] is Message)
                && !(entries[raw_slots(entries)[i].0] is SessionHeader),
    decreases entries.len(),
{
    if entries.len() > 0 {
        lemma_slots_bounds(entries.drop_last());
    }
}

// ── Laws ───────────────────────────────────────────────────────────

/// The (line, event index) address of each slot, lines taken from `lines`.
pub open spec fn slot_addresses(slots: Seq<(int, int)>, lines: Seq<i64>) -> Seq<(int, int)> {
    slots.map_values(|s: (int, int)| (lines[s.0] as int, s.1))
}

/// The (line, event index) address of each capsule seed of the entries.
pub open spec fn seed_addresses(entries: Seq<SessionEntry>, lines: Seq<i64>) -> Seq<(int, int)> {
    Seq::new(event_positions(entries).len(), |k: int| (lines[event_positions(entries)[k]] as int, k))
}

/// The timeline and the conversation view show the same events: the export's messages
/// and raw events together sit at exactly the addresses (file line, event index) of the
/// capsule seeds, each address once, and every slot points at the entry its seed shows.
pub proof fn lemma_export_events_match_seeds(entries: Seq<SessionEntry>, lines: Seq<i64>)
    requires
        entries.len() <= lines.len(),
    ensures
        (slot_addresses(message_slots(entries), lines) + slot_addresses(raw_slots(entries), lines)).to_multiset()
            == seed_addresses(entries, lines).to_multiset(),
        message_slots(entries).len() + raw_slots(entries).len() == event_positions(entries).len(),
        forall|k: int|
            0 <= k < message_slots(entries).len() ==> {
                let slot = #[trigger] message_slots(entries)[k];
                0 <= slot.1 < event_positions(entries).len() && event_positions(entries)[slot.1] == slot.0
            },
        forall|k: int|
            0 <= k < raw_slots(entries).len() ==> {
                let slot = #[trigger] raw_slots(entries)[k];
                0 <= slot.1 < event_positions(entries).len() && event_positions(entries)[slot.1] == slot.0
            },
    decreases entries.len(),
{
    broadcast use vstd::seq_lib::to_multiset_build;
    broadcast use vstd::seq_lib::lemma_multiset_commutative;
    if entries.len() == 0 {
        assert(slot_addresses(message_slots(entries), lines) + slot_addresses(raw_slots(entries), lines) =~= Seq::<
            (int, int),
        >::empty());
        assert(seed_addresses(entries, lines) =~= Seq::<(int, int)>::empty());
    } else {
        let prev = entries.drop_last();
        lemma_export_events_match_seeds(prev, lines);
        let ep = event_positions(prev);
        lemma_event_positions_bounds(prev);
        assert forall|k: int| 0 <= k < message_slots(prev).len() implies {
            let slot = #[trigger] message_slots(prev)[k];
            event_positions(entries)[slot.1] == slot.0
        } by {
            let slot = message_slots(prev)[k];
            assert(event_positions(entries)[slot.1] == ep[slot.1]);
        }
        assert forall|k: int| 0 <= k < raw_slots(prev).len() implies {
            let slot = #[trigger] raw_slots(prev)[k];
            event_positions(entries)[slot.1] == slot.0
        } by {
            let slot = raw_slots(prev)[k];
            assert(event_positions(entries)[slot.1] == ep[slot.1]);
        }
        let mp = slot_addresses(message_slots(prev), lines);
        let rp = slot_addresses(raw_slots(prev), lines);
        let x = (lines[entries.len() - 1] as int, ep.len() as int);
        let last = entries.last();
        if last is SessionHeader {
            assert(slot_addresses(message_slots(entries), lines) =~= mp);
            assert(slot_addresses(raw_slots(entries), lines) =~= rp);
            assert(seed_addresses(entries, lines) =~= seed_addresses(prev, lines));
        } else {
            assert(seed_addresses(entries, lines) =~= seed_addresses(prev, lines).push(x));
            if last is Message {
                assert(slot_addresses(message_slots(entries), lines) =~= mp.push(x));
                assert(slot_addresses(raw_slots(entries), lines) =~= rp);
                assert((mp.push(x) + rp).to_multiset() =~= mp.to_multiset().insert(x).add(rp.to_multiset()));
                assert((mp + rp).to_multiset() =~= mp.to_multiset().add(rp.to_multiset()));
            } else {
                assert(slot_addresses(message_slots(entries), lines) =~= mp);
                assert(slot_addresses(raw_slots(entries), lines) =~= rp.push(x));
                assert(mp + rp.push(x) =~= (mp + rp).push(x));
            }
        }
    }
}

// ── Locating session files ─────────────────────────────────────────

/// Whether a file name is that of the log of session `session_id`: a `.jsonl` file whose
/// name contains the id.
pub fn is_session_file_for(file_name: &str, session_id: &str) -> (r: bool)
    ensures
        r == (ends_with(file_name@, ".jsonl"@) && contains(file_name@, session_id@)),
{
    let f = chars_of(file_name);
    let ext = chars_of(".jsonl");
    let id = chars_of(session_id);
    ends_with_chars(f.as_slice(), ext.as_slice()) && contains_chars(f.as_slice(), id.as_slice())
}

/// The id under which subagent `agent_name` of session `session_id` is served.
pub fn sub_session_id(session_id: &str, agent_name: &str) -> (r: String)
    ensures
        r@ == session_id@ + "-"@ + agent_name@,
{
    let head = cat(session_id, "-");
    cat(head.as_str(), agent_name)
}

} // verus!

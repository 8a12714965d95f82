use vstd::prelude::*;

use crate::api::export::event_nav;
use crate::api::export::is_event_nav;
use crate::api::export::opt_text_is;
use crate::json::json_object_members;
use crate::json::json_object_string_members;
use crate::json::lookup_member;
use crate::json::member_str;
use crate::json::opt_view;
use crate::models::ConversationExport;
use crate::models::ConversationSummary;
use crate::models::Message;
use crate::models::NavAddress;
use crate::models::ParserDiagnostic;
use crate::models::ProblemFlag;
use crate::models::RawEvent;
use crate::models::SessionEntry;
use crate::session::parser::CapsuleSeed;
use crate::session::parser::ParsedSession;
use crate::session::parser::build_capsule_seeds;
use crate::session::parser::session_model;
use crate::session::parser::session_model_of;
use crate::session::parser::event_positions;
use crate::session::parser::or_default;
use crate::session::parser::seed_matches;
use crate::session::parser::seeds_built;
use crate::session::parser::lemma_event_positions_bounds;
use crate::text::cat;
use crate::text::str_eq;

verus! {

// ── Raw event digests ──────────────────────────────────────────────

/// A raw event as the timeline lists it: its JSON form cut down to type, subtype and time.
pub struct RawEventDigest {
    pub id: String,
    pub nav: NavAddress,
    pub event_type: String,
    pub subtype: String,
    pub timestamp: Option<String>,
    pub parse_error: Option<String>,
}

/// The `"type"` tag of an entry's JSON form.
pub open spec fn entry_type_tag(e: SessionEntry) -> Seq<char> {
    match e {
        SessionEntry::SessionHeader(_) => "session"@,
        SessionEntry::Title(_) => "title"@,
        SessionEntry::Message(_) => "message"@,
        SessionEntry::ThinkingLevelChange(_) => "thinking_level_change"@,
        SessionEntry::ModelChange(_) => "model_change"@,
        SessionEntry::ServiceTierChange(_) => "service_tier_change"@,
        SessionEntry::Compaction(_) => "compaction"@,
        SessionEntry::BranchSummary(_) => "branch_summary"@,
        SessionEntry::Custom(_) => "custom"@,
        SessionEntry::CustomMessage(_) => "custom_message"@,
        SessionEntry::Label(_) => "label"@,
        SessionEntry::TtsrInjection(_) => "ttsr_injection"@,
        SessionEntry::SessionInit(_) => "session_init"@,
        SessionEntry::ModeChange(_) => "mode_change"@,
        SessionEntry::McpToolSelection(_) => "mcp_tool_selection"@,
        SessionEntry::TitleChange(_) => "title_change"@,
    }
}

/// The `"timestamp"` member of an entry's JSON form, when it is a string.
pub open spec fn serialized_timestamp_of(e: SessionEntry) -> Option<Seq<char>> {
    match e {
        SessionEntry::SessionHeader(h) => Some(h.timestamp@),
        SessionEntry::Title(t) => opt_view(t.timestamp),
        SessionEntry::Message(x) => Some(x.timestamp@),
        SessionEntry::ThinkingLevelChange(x) => Some(x.timestamp@),
        SessionEntry::ModelChange(x) => Some(x.timestamp@),
        SessionEntry::ServiceTierChange(x) => Some(x.timestamp@),
        SessionEntry::Compaction(x) => Some(x.timestamp@),
        SessionEntry::BranchSummary(x) => Some(x.timestamp@),
        SessionEntry::Custom(x) => Some(x.timestamp@),
        SessionEntry::CustomMessage(x) => Some(x.timestamp@),
        SessionEntry::Label(x) => Some(x.timestamp@),
        SessionEntry::TtsrInjection(x) => Some(x.timestamp@),
        SessionEntry::SessionInit(x) => Some(x.timestamp@),
        SessionEntry::ModeChange(x) => Some(x.timestamp@),
        SessionEntry::McpToolSelection(x) => Some(x.timestamp@),
        SessionEntry::TitleChange(x) => Some(x.timestamp@),
    }
}

/// `d` is the digest of raw event `re`. No entry's JSON form has a `"subtype"` member.
pub open spec fn is_digest_of(d: RawEventDigest, re: RawEvent) -> bool {
    &&& d.id == re.id
    &&& d.nav == re.nav
    &&& d.event_type@ == entry_type_tag(re.raw)
    &&& d.subtype@ == ""@
    &&& opt_view(d.timestamp) == serialized_timestamp_of(re.raw)
    &&& d.parse_error == re.parse_error
}

/// The `"type"` tag of an entry's JSON form.
pub fn type_tag(e: &SessionEntry) -> (r: &'static str)
    ensures
        r@ == entry_type_tag(*e),
{
    match e {
        SessionEntry::SessionHeader(_) => "session",
        SessionEntry::Title(_) => "title",
        SessionEntry::Message(_) => "message",
        SessionEntry::ThinkingLevelChange(_) => "thinking_level_change",
        SessionEntry::ModelChange(_) => "model_change",
        SessionEntry::ServiceTierChange(_) => "service_tier_change",
        SessionEntry::Compaction(_) => "compaction",
        SessionEntry::BranchSummary(_) => "branch_summary",
        SessionEntry::Custom(_) => "custom",
        SessionEntry::CustomMessage(_) => "custom_message",
        SessionEntry::Label(_) => "label",
        SessionEntry::TtsrInjection(_) => "ttsr_injection",
        SessionEntry::SessionInit(_) => "session_init",
        SessionEntry::ModeChange(_) => "mode_change",
        SessionEntry::McpToolSelection(_) => "mcp_tool_selection",
        SessionEntry::TitleChange(_) => "title_change",
    }
}

fn serialized_timestamp(e: &SessionEntry) -> (r: Option<String>)
    ensures
        opt_view(r) == serialized_timestamp_of(*e),
{
    match e {
        SessionEntry::SessionHeader(h) => Some(h.timestamp.clone()),
        SessionEntry::Title(t) => match &t.timestamp {
            Some(s) => Some(s.clone()),
            None => None,
        },
        SessionEntry::Message(x) => Some(x.timestamp.clone()),
        SessionEntry::ThinkingLevelChange(x) => Some(x.timestamp.clone()),
        SessionEntry::ModelChange(x) => Some(x.timestamp.clone()),
        SessionEntry::ServiceTierChange(x) => Some(x.timestamp.clone()),
        SessionEntry::Compaction(x) => Some(x.timestamp.clone()),
        SessionEntry::BranchSummary(x) => Some(x.timestamp.clone()),
        SessionEntry::Custom(x) => Some(x.timestamp.clone()),
        SessionEntry::CustomMessage(x) => Some(x.timestamp.clone()),
        SessionEntry::Label(x) => Some(x.timestamp.clone()),
        SessionEntry::TtsrInjection(x) => Some(x.timestamp.clone()),
        SessionEntry::SessionInit(x) => Some(x.timestamp.clone()),
        SessionEntry::ModeChange(x) => Some(x.timestamp.clone()),
        SessionEntry::McpToolSelection(x) => Some(x.timestamp.clone()),
        SessionEntry::TitleChange(x) => Some(x.timestamp.clone()),
    }
}

/// The digest of a raw event.
pub fn digest_raw_event(re: RawEvent) -> (r: RawEventDigest)
    ensures
        is_digest_of(r, re),
{
    let event_type = type_tag(&re.raw);
    let timestamp = serialized_timestamp(&re.raw);
    proof {
        reveal_strlit("");
    }
    let r = RawEventDigest {
        id: re.id,
        nav: re.nav,
        event_type: String::from_str(event_type),
        subtype: String::new(),
        timestamp,
        parse_error: re.parse_error,
    };
    assert(r.subtype@ == ""@);
    r
}

/// The digests of raw events, in order.
pub fn digest_raw_events(events: Vec<RawEvent>) -> (r: Vec<RawEventDigest>)
    ensures
        r@.len() == events@.len(),
        forall|i: int| 0 <= i < r@.len() ==> is_digest_of(#[trigger] r@[i], events@[i]),
{
    let ghost all = events@;
    let mut out: Vec<RawEventDigest> = Vec::new();
    for re in it: events.into_iter()
        invariant
            it.seq() == all,
            out@.len() == it.index(),
            forall|i: int| 0 <= i < out@.len() ==> is_digest_of(#[trigger] out@[i], all[i]),
    {
        out.push(digest_raw_event(re));
    }
    out
}

// ── Track payloads ─────────────────────────────────────────────────

/// One track of a conversation (the main track or a subagent's) as the timeline loads it.
pub struct TrackPayload {
    pub summary: ConversationSummary,
    pub agent_path: String,
    pub messages: Vec<Message>,
    pub raw_events: Vec<RawEventDigest>,
    pub problem_flags: Vec<ProblemFlag>,
    pub parser_diagnostics: Vec<ParserDiagnostic>,
    pub agent_type: Option<String>,
    pub agent_description: Option<String>,
}

/// The payload of one track: the export's messages and flags as they are, its raw
/// events digested.
pub fn single_track_payload(export: ConversationExport, agent_path: &str) -> (r: TrackPayload)
    ensures
        r.summary == export.summary,
        r.agent_path@ == agent_path@,
        r.messages@ == export.messages@,
        r.raw_events@.len() == export.raw_events@.len(),
        forall|i: int| 0 <= i < r.raw_events@.len() ==> is_digest_of(#[trigger] r.raw_events@[i], export.raw_events@[i]),
        r.problem_flags@ == export.problem_flags@,
        r.parser_diagnostics@ == export.parser_diagnostics@,
        r.agent_type == export.agent_type,
        r.agent_description == export.agent_description,
{
    let ConversationExport {
        summary,
        messages,
        raw_events,
        problem_flags,
        parser_diagnostics,
        agent_type,
        agent_description,
        ..
    } = export;
    TrackPayload {
        summary,
        agent_path: String::from_str(agent_path),
        messages,
        raw_events: digest_raw_events(raw_events),
        problem_flags,
        parser_diagnostics,
        agent_type,
        agent_description,
    }
}

// ── Slim exports ───────────────────────────────────────────────────

/// A subagent transcript as the slim export lists it: its relationship and its sizes.
pub struct SubagentDigest {
    pub summary: ConversationSummary,
    pub agent_type: Option<String>,
    pub agent_description: Option<String>,
    pub task_part_id: Option<String>,
    pub task_message_id: Option<String>,
    pub parent_task_nav: Option<NavAddress>,
    pub parent_result_nav: Option<NavAddress>,
    pub message_count: usize,
    pub raw_event_count: usize,
    pub problem_flag_count: usize,
    pub capsule_count: usize,
}

/// `d` is the digest of subagent export `s`: each capsule is a message or a raw event.
pub open spec fn is_subagent_digest_of(d: SubagentDigest, s: ConversationExport) -> bool {
    &&& d.summary == s.summary
    &&& d.agent_type == s.agent_type
    &&& d.agent_description == s.agent_description
    &&& d.task_part_id == s.task_part_id
    &&& d.task_message_id == s.task_message_id
    &&& d.parent_task_nav == s.parent_task_nav
    &&& d.parent_result_nav == s.parent_result_nav
    &&& d.message_count == s.messages@.len()
    &&& d.raw_event_count == s.raw_events@.len()
    &&& d.problem_flag_count == s.problem_flags@.len()
    &&& d.capsule_count == s.messages@.len() + s.raw_events@.len()
}

/// The counts of a subagent export fit in a `usize`.
pub open spec fn counts_fit(s: ConversationExport) -> bool {
    s.messages@.len() + s.raw_events@.len() <= usize::MAX
}

/// The digest of a subagent export.
pub fn digest_subagent(s: ConversationExport) -> (r: SubagentDigest)
    requires
        counts_fit(s),
    ensures
        is_subagent_digest_of(r, s),
{
    let message_count = s.messages.len();
    let raw_event_count = s.raw_events.len();
    let problem_flag_count = s.problem_flags.len();
    SubagentDigest {
        summary: s.summary,
        agent_type: s.agent_type,
        agent_description: s.agent_description,
        task_part_id: s.task_part_id,
        task_message_id: s.task_message_id,
        parent_task_nav: s.parent_task_nav,
        parent_result_nav: s.parent_result_nav,
        message_count,
        raw_event_count,
        problem_flag_count,
        capsule_count: message_count + raw_event_count,
    }
}

/// A conversation export cut down for the first load: raw events digested and subagent
/// transcripts reduced to their digests.
pub struct SlimExport {
    pub summary: ConversationSummary,
    pub messages: Vec<Message>,
    pub raw_events: Vec<RawEventDigest>,
    pub problem_flags: Vec<ProblemFlag>,
    pub parser_diagnostics: Vec<ParserDiagnostic>,
    pub task_part_id: Option<String>,
    pub task_message_id: Option<String>,
    pub parent_task_nav: Option<NavAddress>,
    pub parent_result_nav: Option<NavAddress>,
    pub previous_sibling_nav: Option<NavAddress>,
    pub next_sibling_nav: Option<NavAddress>,
    pub relationship_hint: Option<String>,
    pub relationship_basis: Option<String>,
    pub agent_type: Option<String>,
    pub agent_description: Option<String>,
    pub subagent_transcripts: Vec<SubagentDigest>,
}

/// The slim form of an export.
pub fn slim_export(export: ConversationExport) -> (r: SlimExport)
    requires
        forall|i: int| 0 <= i < export.subagent_transcripts@.len() ==> counts_fit(#[trigger] export.subagent_transcripts@[i]),
    ensures
        r.summary == export.summary,
        r.messages@ == export.messages@,
        r.raw_events@.len() == export.raw_events@.len(),
        forall|i: int| 0 <= i < r.raw_events@.len() ==> is_digest_of(#[trigger] r.raw_events@[i], export.raw_events@[i]),
        r.problem_flags@ == export.problem_flags@,
        r.parser_diagnostics@ == export.parser_diagnostics@,
        r.task_part_id == export.task_part_id,
        r.task_message_id == export.task_message_id,
        r.parent_task_nav == export.parent_task_nav,
        r.parent_result_nav == export.parent_result_nav,
        r.previous_sibling_nav == export.previous_sibling_nav,
        r.next_sibling_nav == export.next_sibling_nav,
        r.relationship_hint == export.relationship_hint,
        r.relationship_basis == export.relationship_basis,
        r.agent_type == export.agent_type,
        r.agent_description == export.agent_description,
        r.subagent_transcripts@.len() == export.subagent_transcripts@.len(),
        forall|i: int|
            0 <= i < r.subagent_transcripts@.len() ==> is_subagent_digest_of(
                #[trigger] r.subagent_transcripts@[i],
                export.subagent_transcripts@[i],
            ),
{
    let ghost subs = export.subagent_transcripts@;
    let ConversationExport {
        summary,
        messages,
        subagent_transcripts,
        task_part_id,
        task_message_id,
        parent_task_nav,
        parent_result_nav,
        previous_sibling_nav,
        next_sibling_nav,
        relationship_hint,
        relationship_basis,
        agent_type,
        agent_description,
        raw_events,
        parser_diagnostics,
        problem_flags,
        ..
    } = export;
    let mut digests: Vec<SubagentDigest> = Vec::new();
    for s in it: subagent_transcripts.into_iter()
        invariant
            it.seq() == subs,
            forall|i: int| 0 <= i < subs.len() ==> counts_fit(#[trigger] subs[i]),
            digests@.len() == it.index(),
            forall|i: int| 0 <= i < digests@.len() ==> is_subagent_digest_of(#[trigger] digests@[i], subs[i]),
    {
        assert(s == subs[it.index() as int]);
        digests.push(digest_subagent(s));
    }
    SlimExport {
        summary,
        messages,
        raw_events: digest_raw_events(raw_events),
        problem_flags,
        parser_diagnostics,
        task_part_id,
        task_message_id,
        parent_task_nav,
        parent_result_nav,
        previous_sibling_nav,
        next_sibling_nav,
        relationship_hint,
        relationship_basis,
        agent_type,
        agent_description,
        subagent_transcripts: digests,
    }
}


// ── Timeline boot payload ──────────────────────────────────────────

/// The session summary of a timeline boot payload.
pub struct TimelineSummary {
    pub id: String,
    pub title: Option<String>,
    pub model: String,
    pub message_count: usize,
    pub subagent_count: usize,
}

/// What the timeline loads first: the capsule seeds of the main track.
pub struct TimelinePayload {
    pub protocol: u32,
    pub jsonl_file: String,
    pub summary: TimelineSummary,
    pub capsule_seeds: Vec<CapsuleSeed>,
    pub message_count: usize,
    pub raw_event_count: usize,
    pub subagent_transcripts: Vec<SubagentSkeleton>,
}

/// The boot payload of a parsed session (protocol 2): one capsule seed per entry that is
/// not a session header, at its file line and with event indices from 0, and one
/// parallel track per subagent skeleton given.
pub fn timeline_payload(parsed: ParsedSession, session_id: &str, subagents: Vec<SubagentSkeleton>) -> (r: TimelinePayload)
    requires
        parsed.well_formed(),
        parsed.entries@.len() <= i64::MAX,
    ensures
        r.protocol == 2,
        r.jsonl_file == parsed.jsonl_file,
        r.summary.id@ == session_id@,
        r.summary.title == parsed.header.title,
        r.summary.model@ == session_model_of(parsed.entries@),
        r.summary.message_count == parsed.entries@.len(),
        r.summary.subagent_count == subagents@.len(),
        r.capsule_seeds@.len() == event_positions(parsed.entries@).len(),
        forall|i: int|
            0 <= i < r.capsule_seeds@.len() ==> seed_matches(
                #[trigger] r.capsule_seeds@[i],
                parsed.entries@[event_positions(parsed.entries@)[i]],
                parsed.line_numbers@[event_positions(parsed.entries@)[i]] as int,
                i,
            ),
        r.message_count == 0,
        r.raw_event_count == 0,
        r.subagent_transcripts@ == subagents@,
{
    let ParsedSession { header, entries, line_numbers, jsonl_file, .. } = parsed;
    let seeds = build_capsule_seeds(entries.as_slice(), line_numbers.as_slice(), session_id, jsonl_file.as_str(), "main", 0);
    let model = session_model(entries.as_slice());
    let n_subagents = subagents.len();
    TimelinePayload {
        protocol: 2,
        jsonl_file,
        summary: TimelineSummary {
            id: String::from_str(session_id),
            title: header.title,
            model,
            message_count: entries.len(),
            subagent_count: n_subagents,
        },
        capsule_seeds: seeds,
        message_count: 0,
        raw_event_count: 0,
        subagent_transcripts: subagents,
    }
}

// ── Subagent skeletons ─────────────────────────────────────────────

/// The summary of a subagent skeleton.
pub struct SkeletonSummary {
    pub id: String,
    pub title: Option<String>,
    pub directory: String,
    pub model: String,
}

/// A subagent track before its transcript is loaded: its seeds and where it starts.
pub struct SubagentSkeleton {
    pub summary: SkeletonSummary,
    pub agent_type: String,
    pub agent_description: String,
    pub message_count: usize,
    pub raw_event_count: usize,
    pub problem_flag_count: usize,
    pub capsule_count: usize,
    pub first_nav: NavAddress,
    pub capsule_seeds: Vec<CapsuleSeed>,
}

/// The skeleton of the subagent log `path`, named `agent_name`, of session `session_id`:
/// it is served as session `<session_id>-<agent_name>`, its seeds sit at their file
/// lines, and its first address is line 1.
pub fn subagent_skeleton(parsed: ParsedSession, session_id: &str, agent_name: &str, path: &str) -> (r: SubagentSkeleton)
    requires
        parsed.well_formed(),
        parsed.entries@.len() <= i64::MAX,
    ensures
        r.summary.id@ == session_id@ + "-"@ + agent_name@,
        r.summary.title == parsed.header.title,
        r.summary.directory == parsed.header.cwd,
        r.summary.model@ == session_model_of(parsed.entries@),
        r.agent_type@ == agent_name@,
        r.agent_description@ == or_default(parsed.header.title, ""@),
        r.message_count == r.capsule_seeds@.len(),
        r.raw_event_count == 0,
        r.problem_flag_count == 0,
        r.capsule_count == r.capsule_seeds@.len(),
        is_event_nav(r.first_nav, session_id@ + "-"@ + agent_name@, path@, 1, 0, "sub"@, agent_name@),
        r.capsule_seeds@.len() == event_positions(parsed.entries@).len(),
        forall|i: int|
            0 <= i < r.capsule_seeds@.len() ==> seed_matches(
                #[trigger] r.capsule_seeds@[i],
                parsed.entries@[event_positions(parsed.entries@)[i]],
                parsed.line_numbers@[event_positions(parsed.entries@)[i]] as int,
                i,
            ),
{
    let ParsedSession { header, entries, line_numbers, .. } = parsed;
    let head = cat(session_id, "-");
    let sub_id = cat(head.as_str(), agent_name);
    let seeds = build_capsule_seeds(entries.as_slice(), line_numbers.as_slice(), sub_id.as_str(), path, agent_name, 0);
    let model = session_model(entries.as_slice());
    let first_nav = event_nav(sub_id.as_str(), path, 1, 0, "sub", agent_name);
    let description = match &header.title {
        Some(t) => t.clone(),
        None => String::new(),
    };
    proof {
        reveal_strlit("");
    }
    let n = seeds.len();
    SubagentSkeleton {
        summary: SkeletonSummary { id: sub_id, title: header.title, directory: header.cwd, model },
        agent_type: String::from_str(agent_name),
        agent_description: description,
        message_count: n,
        raw_event_count: 0,
        problem_flag_count: 0,
        capsule_count: n,
        first_nav,
        capsule_seeds: seeds,
    }
}

// ── Looking up a line ──────────────────────────────────────────────

/// The message or raw event found on a line of a track.
pub enum LineHit {
    Message(Message),
    RawEvent(RawEvent),
}

/// `o + k`, for an optional index.
pub open spec fn shifted(o: Option<int>, k: int) -> Option<int> {
    match o {
        Some(i) => Some(i + k),
        None => None,
    }
}

/// The first subagent export whose agent type is `t`.
pub open spec fn first_sub_with_type(subs: Seq<ConversationExport>, t: Seq<char>) -> Option<int>
    decreases subs.len(),
{
    if subs.len() == 0 {
        None
    } else if opt_text_is(subs[0].agent_type, t) {
        Some(0)
    } else {
        shifted(first_sub_with_type(subs.drop_first(), t), 1)
    }
}

/// Whether a message is addressed on line `ln`.
pub open spec fn message_on_line(m: Message, ln: i64) -> bool {
    match m.nav {
        Some(n) => n.line_number == ln,
        None => false,
    }
}

/// The first message addressed on line `ln`.
pub open spec fn first_message_on_line(ms: Seq<Message>, ln: i64) -> Option<int>
    decreases ms.len(),
{
    if ms.len() == 0 {
        None
    } else if message_on_line(ms[0], ln) {
        Some(0)
    } else {
        shifted(first_message_on_line(ms.drop_first(), ln), 1)
    }
}

/// The first raw event addressed on line `ln`.
pub open spec fn first_raw_event_on_line(rs: Seq<RawEvent>, ln: i64) -> Option<int>
    decreases rs.len(),
{
    if rs.len() == 0 {
        None
    } else if rs[0].nav.line_number == ln {
        Some(0)
    } else {
        shifted(first_raw_event_on_line(rs.drop_first(), ln), 1)
    }
}

/// The track that `track_id` names: the export itself for `main`, else its first
/// subagent export of that agent type.
pub open spec fn selected_track(export: ConversationExport, track_id: Seq<char>) -> Option<ConversationExport> {
    if track_id == "main"@ {
        Some(export)
    } else {
        match first_sub_with_type(export.subagent_transcripts@, track_id) {
            Some(j) => Some(export.subagent_transcripts@[j]),
            None => None,
        }
    }
}

/// What a line lookup in a track finds: the first message on the line, else the first
/// raw event on it.
pub open spec fn line_hit_spec(track: ConversationExport, ln: i64) -> Option<LineHit> {
    match first_message_on_line(track.messages@, ln) {
        Some(i) => Some(LineHit::Message(track.messages@[i])),
        None => match first_raw_event_on_line(track.raw_events@, ln) {
            Some(i) => Some(LineHit::RawEvent(track.raw_events@[i])),
            None => None,
        },
    }
}

fn find_sub_with_type(subs: &Vec<ConversationExport>, t: &str) -> (r: Option<usize>)
    ensures
        match r {
            Some(j) => j < subs@.len() && first_sub_with_type(subs@, t@) == Some(j as int),
            None => first_sub_with_type(subs@, t@) is None,
        },
{
    let mut i: usize = 0;
    assert(subs@.skip(0) =~= subs@);
    while i < subs.len()
        invariant
            i <= subs@.len(),
            first_sub_with_type(subs@, t@) == shifted(first_sub_with_type(subs@.skip(i as int), t@), i as int),
        decreases subs.len() - i,
    {
        assert(subs@.skip(i as int)[0] == subs@[i as int]);
        assert(subs@.skip(i as int).drop_first() =~= subs@.skip(i + 1));
        let hit = match &subs[i].agent_type {
            Some(a) => str_eq(a.as_str(), t),
            None => false,
        };
        if hit {
            return Some(i);
        }
        i = i + 1;
    }
    assert(subs@.skip(i as int).len() == 0);
    None
}

fn find_message_on_line(ms: &Vec<Message>, ln: i64) -> (r: Option<usize>)
    ensures
        match r {
            Some(j) => j < ms@.len() && first_message_on_line(ms@, ln) == Some(j as int),
            None => first_message_on_line(ms@, ln) is None,
        },
{
    let mut i: usize = 0;
    assert(ms@.skip(0) =~= ms@);
    while i < ms.len()
        invariant
            i <= ms@.len(),
            first_message_on_line(ms@, ln) == shifted(first_message_on_line(ms@.skip(i as int), ln), i as int),
        decreases ms.len() - i,
    {
        assert(ms@.skip(i as int)[0] == ms@[i as int]);
        assert(ms@.skip(i as int).drop_first() =~= ms@.skip(i + 1));
        let hit = match &ms[i].nav {
            Some(n) => n.line_number == ln,
            None => false,
        };
        if hit {
            return Some(i);
        }
        i = i + 1;
    }
    assert(ms@.skip(i as int).len() == 0);
    None
}

fn find_raw_event_on_line(rs: &Vec<RawEvent>, ln: i64) -> (r: Option<usize>)
    ensures
        match r {
            Some(j) => j < rs@.len() && first_raw_event_on_line(rs@, ln) == Some(j as int),
            None => first_raw_event_on_line(rs@, ln) is None,
        },
{
    let mut i: usize = 0;
    assert(rs@.skip(0) =~= rs@);
    while i < rs.len()
        invariant
            i <= rs@.len(),
            first_raw_event_on_line(rs@, ln) == shifted(first_raw_event_on_line(rs@.skip(i as int), ln), i as int),
        decreases rs.len() - i,
    {
        assert(rs@.skip(i as int)[0] == rs@[i as int]);
        assert(rs@.skip(i as int).drop_first() =~= rs@.skip(i + 1));
        if rs[i].nav.line_number == ln {
            return Some(i);
        }
        i = i + 1;
    }
    assert(rs@.skip(i as int).len() == 0);
    None
}

fn hit_in_track(track: ConversationExport, ln: i64) -> (r: Option<LineHit>)
    ensures
        r == line_hit_spec(track, ln),
{
    let ConversationExport { messages, raw_events, .. } = track;
    let mut messages = messages;
    let mut raw_events = raw_events;
    match find_message_on_line(&messages, ln) {
        Some(i) => Some(LineHit::Message(messages.remove(i))),
        None => match find_raw_event_on_line(&raw_events, ln) {
            Some(i) => Some(LineHit::RawEvent(raw_events.remove(i))),
            None => None,
        },
    }
}

/// The message, else the raw event, on line `line_number` of track `track_id` (`main`
/// or a subagent's agent type) of an export.
pub fn find_line_hit(export: ConversationExport, track_id: &str, line_number: i64) -> (r: Option<LineHit>)
    ensures
        r == match selected_track(export, track_id@) {
            Some(t) => line_hit_spec(t, line_number),
            None => None,
        },
{
    proof {
        reveal_strlit("main");
    }
    if str_eq(track_id, "main") {
        hit_in_track(export, line_number)
    } else {
        let ConversationExport { subagent_transcripts, .. } = export;
        let mut subs = subagent_transcripts;
        match find_sub_with_type(&subs, track_id) {
            Some(j) => hit_in_track(subs.remove(j), line_number),
            None => None,
        }
    }
}

// ── Raw lines ──────────────────────────────────────────────────────

/// `n` addresses line `line` of `jsonl_file` on the main track, as raw JSON.
pub open spec fn is_raw_line_nav(n: NavAddress, session_id: Seq<char>, jsonl_file: Seq<char>, line: int) -> bool {
    &&& n.session_id@ == session_id
    &&& n.jsonl_file@ == jsonl_file
    &&& n.line_number == line
    &&& n.event_index == 0
    &&& n.scope@ == "main"@
    &&& n.agent_path@ == "main"@
    &&& n.element_type@ == "event"@
    &&& n.view@ == "raw"@
    &&& n.message_id is None
    &&& n.content_index is None
    &&& n.tool_use_id is None
    &&& n.json_pointer is None
    &&& n.problem_id is None
}

/// The address under which a raw line of a session file is served.
pub fn raw_line_nav(session_id: &str, jsonl_file: &str, line_number: i64) -> (r: NavAddress)
    ensures
        is_raw_line_nav(r, session_id@, jsonl_file@, line_number as int),
{
    NavAddress {
        session_id: String::from_str(session_id),
        jsonl_file: String::from_str(jsonl_file),
        line_number,
        event_index: 0,
        scope: String::from_str("main"),
        agent_path: String::from_str("main"),
        element_type: String::from_str("event"),
        view: String::from_str("raw"),
        message_id: None,
        content_index: None,
        tool_use_id: None,
        json_pointer: None,
        problem_id: None,
    }
}

/// The `"id"` of a raw line: its string `id` member when the line is a JSON object, else "".
pub open spec fn raw_line_id_of(line: Seq<char>) -> Seq<char> {
    match json_object_string_members(line) {
        Some(m) => match member_str(m, "id"@) {
            Some(i) => i,
            None => ""@,
        },
        None => ""@,
    }
}

/// The `"id"` of a raw line of a session file.
pub fn raw_line_id(line: &str) -> (r: String)
    ensures
        r@ == raw_line_id_of(line@),
{
    proof {
        reveal_strlit("");
    }
    match json_object_members(line) {
        Some(members) => match lookup_member(&members, "id") {
            Some(i) => i,
            None => String::new(),
        },
        None => String::new(),
    }
}

/// In the seeds built for a session, an entry's seed is a message seed exactly when the
/// entry is a message, and every raw seed carries as its raw type the `"type"` tag of its
/// entry's JSON form (a `title` entry is reported as `title_change`).
pub proof fn lemma_raw_seed_types_are_entry_tags(
    r: Seq<CapsuleSeed>,
    entries: Seq<SessionEntry>,
    lines: Seq<i64>,
    start: int,
)
    requires
        seeds_built(r, entries, lines, start),
    ensures
        forall|i: int|
            0 <= i < r.len() ==> {
                let e = entries[event_positions(entries)[i]];
                &&& (#[trigger] r[i] is Message <==> e is Message)
                &&& r[i] is Raw ==> r[i]->Raw_raw_type@ == (if e is Title {
                    "title_change"@
                } else {
                    entry_type_tag(e)
                })
            },
{
    lemma_event_positions_bounds(entries);
    assert forall|i: int| 0 <= i < r.len() implies {
        let e = entries[event_positions(entries)[i]];
        &&& (#[trigger] r[i] is Message <==> e is Message)
        &&& r[i] is Raw ==> r[i]->Raw_raw_type@ == (if e is Title {
            "title_change"@
        } else {
            entry_type_tag(e)
        })
    } by {
        let e = entries[event_positions(entries)[i]];
        assert(seed_matches(r[i], e, lines[event_positions(entries)[i]] as int, start + i));
        assert(!(e is SessionHeader));
    }
}

} // verus!

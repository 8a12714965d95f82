use vstd::prelude::*;

use crate::models::ConversationSummary;
use crate::session::parser::or_default;
use crate::text::cat;
use crate::text::str_eq;

verus! {

// ── Dashboard ──────────────────────────────────────────────────────

/// The opening of the plain dashboard page.
pub open spec fn dashboard_head() -> Seq<char> {
    "<!doctype html><html><head><meta charset=\"UTF-8\"><title>OMP Visualizer</title>\n<link rel=\"stylesheet\" href=\"/static/css/base.css\"></head><body><main class=\"dashboard-shell\">\n<header class=\"app-header\"><h1>OMP Visualizer</h1></header>\n<section><ul class=\"session-list\">"@
}

/// The closing of the plain dashboard page.
pub open spec fn dashboard_tail() -> Seq<char> {
    "</ul></section></main></body></html>"@
}

/// The list item of one session on the plain dashboard page.
pub open spec fn dashboard_item(s: ConversationSummary) -> Seq<char> {
    "<li class=\"session-card\"><a href=\"/conversation/omp/"@ + s.id@ + "\"><h3>"@ + or_default(s.title, "Untitled"@) + "</h3><p>"@
        + or_default(s.directory, ""@) + "</p></a></li>"@
}

/// The list items of the sessions, in order.
pub open spec fn dashboard_items(sessions: Seq<ConversationSummary>) -> Seq<char>
    decreases sessions.len(),
{
    if sessions.len() == 0 {
        Seq::empty()
    } else {
        dashboard_items(sessions.drop_last()) + dashboard_item(sessions.last())
    }
}

/// The plain dashboard page that lists the sessions.
pub open spec fn dashboard_page(sessions: Seq<ConversationSummary>) -> Seq<char> {
    dashboard_head() + dashboard_items(sessions) + dashboard_tail()
}

fn opt_text(o: &Option<String>, d: &str) -> (r: String)
    ensures
        r@ == or_default(*o, d@),
{
    match o {
        Some(s) => s.clone(),
        None => String::from_str(d),
    }
}

fn dashboard_item_html(s: &ConversationSummary) -> (r: String)
    ensures
        r@ == dashboard_item(*s),
{
    let title = opt_text(&s.title, "Untitled");
    let dir = opt_text(&s.directory, "");
    let a = cat("<li class=\"session-card\"><a href=\"/conversation/omp/", s.id.as_str());
    let b = cat(a.as_str(), "\"><h3>");
    let c = cat(b.as_str(), title.as_str());
    let d = cat(c.as_str(), "</h3><p>");
    let e = cat(d.as_str(), dir.as_str());
    cat(e.as_str(), "</p></a></li>")
}

/// The dashboard page used when no template renders: every session as a link to its
/// conversation page, with its title (or "Untitled") and its directory.
pub fn dashboard_fallback(sessions: &[ConversationSummary]) -> (r: String)
    ensures
        r@ == dashboard_page(sessions@),
{
    let mut html = String::from_str("<!doctype html><html><head><meta charset=\"UTF-8\"><title>OMP Visualizer</title>\n<link rel=\"stylesheet\" href=\"/static/css/base.css\"></head><body><main class=\"dashboard-shell\">\n<header class=\"app-header\"><h1>OMP Visualizer</h1></header>\n<section><ul class=\"session-list\">");
    let mut i: usize = 0;
    while i < sessions.len()
        invariant
            i <= sessions@.len(),
            html@ == dashboard_head() + dashboard_items(sessions@.take(i as int)),
        decreases sessions.len() - i,
    {
        let item = dashboard_item_html(&sessions[i]);
        html.append(item.as_str());
        proof {
            assert(sessions@.take(i + 1).drop_last() =~= sessions@.take(i as int));
        }
        i = i + 1;
    }
    assert(sessions@.take(sessions@.len() as int) =~= sessions@);
    html.append("</ul></section></main></body></html>");
    html
}

// ── Conversation page ──────────────────────────────────────────────

/// The plain conversation page of a session: its title (or "Untitled") twice and its id.
pub open spec fn conversation_page_html(title: Seq<char>, id: Seq<char>) -> Seq<char> {
    "<!doctype html><html><head><meta charset=\"UTF-8\">\n<title>"@ + title + " | OMP Visualizer</title>\n<link rel=\"stylesheet\" href=\"/static/css/base.css\">\n</head><body>\n<div class=\"workbench-shell dual-workbench\"\n     data-testid=\"conversation-workbench\"\n     data-agent=\"omp\"\n     data-session-id=\""@ + id + "\"\n     data-slim-payload=\"true\"\n     data-default-layout=\"graph\"\n     data-layout=\"graph\">\n<header class=\"command-bar\">\n  <a class=\"back-link\" href=\"/\">Sessions</a>\n  <h1>"@ + title + "</h1>\n</header>\n<main id=\"transcript\" class=\"transcript-surface\">\n  <section id=\"graphLayout\" class=\"timeline-layout\">\n    <div id=\"graphViewport\" class=\"timeline-viewport\">\n      <div id=\"sessionLoadingSkeleton\" class=\"timeline-boot-skeleton\">\n        <div class=\"timeline-boot-skeleton-header\">\n          <div class=\"timeline-boot-status\">Loading session data…</div>\n        </div>\n      </div>\n      <div id=\"graphSizer\" class=\"timeline-sizer\"></div>\n      <div id=\"graphLayer\" class=\"timeline-layer\">\n        <svg id=\"graphEdges\" class=\"timeline-connectors\"></svg>\n        <div id=\"graphLanes\" class=\"timeline-tracks\"></div>\n        <div id=\"graphCapsules\" class=\"timeline-blocks\"></div>\n      </div>\n    </div>\n  </section>\n</main>\n</div>\n<div id=\"timelineDetailPanel\" class=\"timeline-detail-dock hidden\"></div>\n<script src=\"/static/js/text_utils.js\"></script>\n<script src=\"/static/js/timeline_renderer.js\"></script>\n<script src=\"/static/js/opencode_renderer.js\"></script>\n<script src=\"/static/js/conversation.js\"></script>\n</body></html>"@
}

/// The conversation page used when no template renders: a workbench shell that the
/// frontend scripts fill in.
pub fn conversation_page_fallback(summary: &ConversationSummary) -> (r: String)
    ensures
        r@ == conversation_page_html(or_default(summary.title, "Untitled"@), summary.id@),
{
    let title = opt_text(&summary.title, "Untitled");
    let a = cat("<!doctype html><html><head><meta charset=\"UTF-8\">\n<title>", title.as_str());
    let b = cat(a.as_str(), " | OMP Visualizer</title>\n<link rel=\"stylesheet\" href=\"/static/css/base.css\">\n</head><body>\n<div class=\"workbench-shell dual-workbench\"\n     data-testid=\"conversation-workbench\"\n     data-agent=\"omp\"\n     data-session-id=\"");
    let c = cat(b.as_str(), summary.id.as_str());
    let d = cat(c.as_str(), "\"\n     data-slim-payload=\"true\"\n     data-default-layout=\"graph\"\n     data-layout=\"graph\">\n<header class=\"command-bar\">\n  <a class=\"back-link\" href=\"/\">Sessions</a>\n  <h1>");
    let e = cat(d.as_str(), title.as_str());
    cat(e.as_str(), "</h1>\n</header>\n<main id=\"transcript\" class=\"transcript-surface\">\n  <section id=\"graphLayout\" class=\"timeline-layout\">\n    <div id=\"graphViewport\" class=\"timeline-viewport\">\n      <div id=\"sessionLoadingSkeleton\" class=\"timeline-boot-skeleton\">\n        <div class=\"timeline-boot-skeleton-header\">\n          <div class=\"timeline-boot-status\">Loading session data…</div>\n        </div>\n      </div>\n      <div id=\"graphSizer\" class=\"timeline-sizer\"></div>\n      <div id=\"graphLayer\" class=\"timeline-layer\">\n        <svg id=\"graphEdges\" class=\"timeline-connectors\"></svg>\n        <div id=\"graphLanes\" class=\"timeline-tracks\"></div>\n        <div id=\"graphCapsules\" class=\"timeline-blocks\"></div>\n      </div>\n    </div>\n  </section>\n</main>\n</div>\n<div id=\"timelineDetailPanel\" class=\"timeline-detail-dock hidden\"></div>\n<script src=\"/static/js/text_utils.js\"></script>\n<script src=\"/static/js/timeline_renderer.js\"></script>\n<script src=\"/static/js/opencode_renderer.js\"></script>\n<script src=\"/static/js/conversation.js\"></script>\n</body></html>")
}

/// The layout that a `layout` query value selects: the reader for `waterfall`,
/// `focus` and `reader`, the graph for anything else or none.
pub open spec fn layout_for(layout: Option<Seq<char>>) -> Seq<char> {
    match layout {
        Some(l) => if l == "waterfall"@ || l == "focus"@ || l == "reader"@ {
            "reader"@
        } else {
            "graph"@
        },
        None => "graph"@,
    }
}

/// The initial layout of the conversation page.
pub fn initial_layout(layout: Option<&str>) -> (r: &'static str)
    ensures
        r@ == layout_for(
            match layout {
                Some(l) => Some(l@),
                None => None,
            },
        ),
{
    match layout {
        Some(l) => if str_eq(l, "waterfall") || str_eq(l, "focus") || str_eq(l, "reader") {
            "reader"
        } else {
            "graph"
        },
        None => "graph",
    }
}

/// The position of the first session with the given id.
pub fn find_session_summary(sessions: &[ConversationSummary], session_id: &str) -> (r: Option<usize>)
    ensures
        match r {
            Some(i) => {
                &&& i < sessions@.len()
                &&& sessions@[i as int].id@ == session_id@
                &&& forall|j: int| 0 <= j < i ==> sessions@[j].id@ != session_id@
            },
            None => forall|j: int| 0 <= j < sessions@.len() ==> sessions@[j].id@ != session_id@,
        },
{
    let mut i: usize = 0;
    while i < sessions.len()
        invariant
            i <= sessions@.len(),
            forall|j: int| 0 <= j < i ==> sessions@[j].id@ != session_id@,
        decreases sessions.len() - i,
    {
        if str_eq(sessions[i].id.as_str(), session_id) {
            return Some(i);
        }
        i = i + 1;
    }
    None
}

} // verus!

use vstd::prelude::*;

use crate::models::ConversationExport;
use crate::models::GenericPart;
use crate::models::Message;
use crate::models::NavAddress;
use crate::models::RawEvent;
use crate::api::payloads::entry_type_tag;
use crate::api::payloads::type_tag;
use vstd::utf8::valid_utf8;
use crate::models::copy_nav;
use crate::models::copy_opt_nav;
use crate::session::parser::or_default;
use crate::text::cat;
use crate::text::contains;
use crate::text::occurs_at;
use crate::text::decimal;
use crate::text::decimal_string;
use crate::text::str_eq;
use crate::text::lowercase;
use crate::text::to_lowercase;
use vstd::utf8::encode_utf8;
use vstd::utf8::is_char_boundary;

verus! {

// ── Byte search ────────────────────────────────────────────────────

/// `n` occurs in `h` at byte `i`.
pub open spec fn bytes_occur_at(h: Seq<u8>, n: Seq<u8>, i: int) -> bool {
    0 <= i && i + n.len() <= h.len() && h.subrange(i, i + n.len()) == n
}

/// `i` is the first byte at which `n` occurs in `h`.
pub open spec fn is_first_occurrence(h: Seq<u8>, n: Seq<u8>, i: int) -> bool {
    bytes_occur_at(h, n, i) && forall|j: int| 0 <= j < i ==> !bytes_occur_at(h, n, j)
}

/// The first byte at which `n` occurs in `h` (`str::find`).
pub open spec fn first_occurrence(h: Seq<u8>, n: Seq<u8>) -> Option<int> {
    if exists|i: int| is_first_occurrence(h, n, i) {
        Some(choose|i: int| is_first_occurrence(h, n, i))
    } else {
        None
    }
}

proof fn lemma_first_occurrence_is(h: Seq<u8>, n: Seq<u8>, i: int)
    requires
        is_first_occurrence(h, n, i),
    ensures
        first_occurrence(h, n) == Some(i),
{
    let c = choose|k: int| is_first_occurrence(h, n, k);
    assert(is_first_occurrence(h, n, c));
    if c < i {
        assert(!bytes_occur_at(h, n, c));
    }
    if i < c {
        assert(!bytes_occur_at(h, n, i));
    }
}

fn bytes_match_at(h: &[u8], n: &[u8], i: usize) -> (r: bool)
    ensures
        r == bytes_occur_at(h@, n@, i as int),
{
    if i > h.len() || n.len() > h.len() - i {
        return false;
    }
    let mut k: usize = 0;
    while k < n.len()
        invariant
            i + n@.len() <= h@.len(),
            h@.len() == h.len(),
            k <= n@.len(),
            forall|j: int| 0 <= j < k ==> h@[i + j] == n@[j],
        decreases n.len() - k,
    {
        if h[i + k] != n[k] {
            assert(h@.subrange(i as int, i + n@.len())[k as int] != n@[k as int]);
            return false;
        }
        k = k + 1;
    }
    assert(h@.subrange(i as int, i + n@.len()) =~= n@);
    true
}

/// The first byte at which `n` occurs in `h`.
fn find_bytes(h: &[u8], n: &[u8]) -> (r: Option<usize>)
    ensures
        match r {
            Some(i) => is_first_occurrence(h@, n@, i as int),
            None => forall|j: int| !bytes_occur_at(h@, n@, j),
        },
{
    if n.len() > h.len() {
        return None;
    }
    let last = h.len() - n.len();
    let mut i: usize = 0;
    loop
        invariant
            n@.len() <= h@.len(),
            last == h@.len() - n@.len(),
            i <= last,
            forall|j: int| 0 <= j < i ==> !bytes_occur_at(h@, n@, j),
        ensures
            forall|j: int| 0 <= j <= last ==> !bytes_occur_at(h@, n@, j),
        decreases last - i,
    {
        if bytes_match_at(h, n, i) {
            return Some(i);
        }
        if i == last {
            break;
        }
        i = i + 1;
    }
    assert forall|j: int| !bytes_occur_at(h@, n@, j) by {
        if 0 <= j && j + n@.len() <= h@.len() {
            assert(j <= last);
        }
    }
    None
}

// ── Snippets ───────────────────────────────────────────────────────

/// The last character boundary of `b` at or before byte `x` (0 when `x` is not positive).
pub open spec fn floor_boundary(b: Seq<u8>, x: int) -> int
    decreases x,
{
    if x <= 0 {
        0
    } else if is_char_boundary(b, x) {
        x
    } else {
        floor_boundary(b, x - 1)
    }
}

/// The first character boundary of `b` at or after byte `x`, or its end.
pub open spec fn ceil_boundary(b: Seq<u8>, x: int) -> int
    decreases b.len() - x,
{
    if x >= b.len() {
        b.len() as int
    } else if is_char_boundary(b, x) {
        x
    } else {
        ceil_boundary(b, x + 1)
    }
}

proof fn lemma_floor_boundary(b: Seq<u8>, x: int)
    requires
        valid_utf8(b),
        x <= b.len(),
    ensures
        0 <= floor_boundary(b, x) <= (if x < 0 { 0 } else { x }),
        is_char_boundary(b, floor_boundary(b, x)),
    decreases x,
{
    if x > 0 && !is_char_boundary(b, x) {
        lemma_floor_boundary(b, x - 1);
    }
}

proof fn lemma_ceil_boundary(b: Seq<u8>, x: int)
    requires
        valid_utf8(b),
        0 <= x,
    ensures
        (if x > b.len() { b.len() as int } else { x }) <= ceil_boundary(b, x) <= b.len(),
        is_char_boundary(b, ceil_boundary(b, x)),
    decreases b.len() - x,
{
    if x >= b.len() {
        vstd::utf8::is_char_boundary_start_end_of_seq(b);
    } else if !is_char_boundary(b, x) {
        lemma_ceil_boundary(b, x + 1);
    }
}

/// The byte range of `text` shown around the first match of `q` (already lowercase) in
/// the lowercased text: from 40 bytes before it to 60 bytes after it, cut to the text,
/// then widened to the nearest character boundaries.
pub open spec fn snippet_range(text: Seq<char>, q: Seq<char>) -> Option<(int, int)> {
    match first_occurrence(encode_utf8(lowercase(text)), encode_utf8(q)) {
        Some(p) => {
            let start = if p >= 40 { p - 40 } else { 0 };
            let reach = p + encode_utf8(q).len() + 60;
            let len = encode_utf8(text).len() as int;
            let end = if reach < len { reach } else { len };
            let start_in = if start < end { start } else { end };
            Some((floor_boundary(encode_utf8(text), start_in), ceil_boundary(encode_utf8(text), end)))
        },
        None => None,
    }
}

/// The snippet of `text` around the first match of `q`, if it matches.
fn snippet_of(text: &str, q: &str) -> (r: Option<String>)
    ensures
        match r {
            Some(s) => match snippet_range(text@, q@) {
                Some(rg) => encode_utf8(s@) == encode_utf8(text@).subrange(rg.0, rg.1),
                None => false,
            },
            None => snippet_range(text@, q@) is None,
        },
{
    let lower = to_lowercase(text);
    let lb = lower.as_str().as_bytes();
    let qb = q.as_bytes();
    match find_bytes(lb, qb) {
        None => {
            assert(!exists|i: int| is_first_occurrence(lb@, qb@, i));
            None
        },
        Some(pos) => {
            proof {
                lemma_first_occurrence_is(lb@, qb@, pos as int);
            }
            let tb = text.as_bytes();
            let ghost all = tb@;
            let tlen = tb.len();
            let qlen = qb.len();
            assert(pos + qlen <= lb@.len() && lb@.len() == lb.len());
            let start: usize = if pos >= 40 { pos - 40 } else { 0 };
            let near = pos + qlen;
            let end: usize = if near >= tlen || tlen - near <= 60 { tlen } else { near + 60 };
            let start_in: usize = if start < end { start } else { end };
            proof {
                vstd::utf8::encode_utf8_valid_utf8(text@);
                lemma_floor_boundary(all, start_in as int);
                lemma_ceil_boundary(all, end as int);
            }
            let mut from: usize = start_in;
            while from > 0 && !text.is_char_boundary(from)
                invariant
                    from <= start_in,
                    all == encode_utf8(text@),
                    floor_boundary(all, from as int) == floor_boundary(all, start_in as int),
                decreases from,
            {
                from = from - 1;
            }
            let mut to: usize = end;
            while to < tlen && !text.is_char_boundary(to)
                invariant
                    end <= to <= tlen,
                    tlen == all.len(),
                    all == encode_utf8(text@),
                    ceil_boundary(all, to as int) == ceil_boundary(all, end as int),
                decreases tlen - to,
            {
                to = to + 1;
            }
            assert(from == floor_boundary(all, start_in as int));
            assert(to == ceil_boundary(all, end as int));
            let (_, rest) = text.split_at(from);
            proof {
                vstd::utf8::valid_utf8_split(all, from as int);
                let rb = encode_utf8(rest@);
                assert(rb =~= all.subrange(from as int, all.len() as int));
                if to < tlen {
                    vstd::utf8::is_char_boundary_iff_not_is_continuation_byte(all, to as int);
                    vstd::utf8::is_char_boundary_iff_not_is_continuation_byte(rb, to - from);
                    assert(rb[to - from] == all[to as int]);
                } else {
                    vstd::utf8::is_char_boundary_start_end_of_seq(rb);
                }
            }
            let (mid, _) = rest.split_at(to - from);
            assert(encode_utf8(mid@) =~= all.subrange(from as int, to as int));
            Some(String::from_str(mid))
        },
    }
}

// ── Searching an export ────────────────────────────────────────────

/// A search result: where a message part or a raw event matches the query.
pub struct SearchHit {
    pub key: String,
    pub track_id: String,
    pub kind_label: String,
    pub line_label: String,
    pub source_text: String,
    pub nav: Option<NavAddress>,
}

/// A part has a text in which the query occurs.
pub open spec fn part_matched(p: GenericPart, q: Seq<char>) -> bool {
    match p.text {
        Some(t) => snippet_range(t@, q) is Some,
        None => false,
    }
}

/// The indices of the parts that match, in order.
pub open spec fn matched_parts(parts: Seq<GenericPart>, q: Seq<char>) -> Seq<int>
    decreases parts.len(),
{
    if parts.len() == 0 {
        Seq::empty()
    } else {
        let rest = matched_parts(parts.drop_last(), q);
        if part_matched(parts.last(), q) {
            rest.push(parts.len() - 1)
        } else {
            rest
        }
    }
}

/// The (message, part) positions of the matches, in order.
pub open spec fn hit_slots(ms: Seq<Message>, q: Seq<char>) -> Seq<(int, int)>
    decreases ms.len(),
{
    if ms.len() == 0 {
        Seq::empty()
    } else {
        hit_slots(ms.drop_last(), q) + matched_parts(ms.last().parts@, q).map_values(|ci: int| (ms.len() - 1, ci))
    }
}

/// The indices of the raw events whose JSON text matches, in order.
pub open spec fn raw_hit_slots(texts: Seq<Seq<char>>, q: Seq<char>) -> Seq<int>
    decreases texts.len(),
{
    if texts.len() == 0 {
        Seq::empty()
    } else {
        let rest = raw_hit_slots(texts.drop_last(), q);
        if snippet_range(texts.last(), q) is Some {
            rest.push(texts.len() - 1)
        } else {
            rest
        }
    }
}

/// The first of two addresses that is present.
pub open spec fn or_nav(a: Option<NavAddress>, b: Option<NavAddress>) -> Option<NavAddress> {
    match a {
        Some(x) => Some(x),
        None => b,
    }
}

/// `L<line>` for an address, "" for none.
pub open spec fn line_label_of(n: Option<NavAddress>) -> Seq<char> {
    match n {
        Some(x) => "L"@ + decimal(x.line_number as int),
        None => ""@,
    }
}

/// The snippet `s` is cut from `text` around the match of `q`.
pub open spec fn is_snippet(s: Seq<char>, text: Seq<char>, q: Seq<char>) -> bool {
    match snippet_range(text, q) {
        Some(rg) => encode_utf8(s) == encode_utf8(text).subrange(rg.0, rg.1),
        None => false,
    }
}

/// `h` reports the match of `q` in part `ci` of message `m`, on track `track`.
pub open spec fn is_hit(h: SearchHit, m: Message, ci: int, q: Seq<char>, track: Seq<char>) -> bool {
    let p = m.parts@[ci];
    let nav = or_nav(m.nav, p.nav);
    &&& h.key@ == or_default(m.id, ""@) + "-"@ + decimal(ci) + "-"@ + track
    &&& h.track_id@ == track
    &&& h.kind_label@ == m.role@ + " message"@
    &&& h.line_label@ == line_label_of(nav)
    &&& h.nav == nav
    &&& match p.text {
        Some(t) => is_snippet(h.source_text@, t@, q),
        None => false,
    }
}

/// `h` reports the match of `q` in the JSON text `text` of raw event `re`, on track `track`.
pub open spec fn is_raw_hit(h: SearchHit, re: RawEvent, text: Seq<char>, q: Seq<char>, track: Seq<char>) -> bool {
    &&& h.key@ == re.id@ + "-raw-"@ + track
    &&& h.track_id@ == track
    &&& h.kind_label@ == entry_type_tag(re.raw) + " event"@
    &&& h.line_label@ == line_label_of(Some(re.nav))
    &&& h.nav == Some(re.nav)
    &&& is_snippet(h.source_text@, text, q)
}

/// The matches in one export, in order: message parts (kind 0, message, part), then raw
/// events (kind 1, raw event, 0).
pub open spec fn export_hit_slots(ms: Seq<Message>, texts: Seq<Seq<char>>, q: Seq<char>) -> Seq<(int, int, int)> {
    hit_slots(ms, q).map_values(|p: (int, int)| (0int, p.0, p.1)) + raw_hit_slots(texts, q).map_values(
        |j: int| (1int, j, 0int),
    )
}

/// `h` reports the match at `slot` of an export whose raw events have JSON texts `texts`.
pub open spec fn is_export_hit(
    h: SearchHit,
    export: ConversationExport,
    texts: Seq<Seq<char>>,
    slot: (int, int, int),
    q: Seq<char>,
    track: Seq<char>,
) -> bool {
    if slot.0 == 0 {
        is_hit(h, export.messages@[slot.1], slot.2, q, track)
    } else {
        is_raw_hit(h, export.raw_events@[slot.1], texts[slot.1], q, track)
    }
}

/// The characters of each text.
pub open spec fn texts_view(v: Seq<String>) -> Seq<Seq<char>> {
    v.map_values(|s: String| s@)
}

fn hit_for(m: &Message, ci: usize, source_text: String, track: &str) -> (r: SearchHit)
    requires
        ci < m.parts@.len(),
    ensures
        r.key@ == or_default(m.id, ""@) + "-"@ + decimal(ci as int) + "-"@ + track@,
        r.track_id@ == track@,
        r.kind_label@ == m.role@ + " message"@,
        r.line_label@ == line_label_of(or_nav(m.nav, m.parts@[ci as int].nav)),
        r.nav == or_nav(m.nav, m.parts@[ci as int].nav),
        r.source_text == source_text,
{
    proof {
        reveal_strlit("");
    }
    let id = match &m.id {
        Some(s) => s.clone(),
        None => String::new(),
    };
    let digits = decimal_string(ci as i128);
    let k1 = cat(id.as_str(), "-");
    let k2 = cat(k1.as_str(), digits.as_str());
    let k3 = cat(k2.as_str(), "-");
    let key = cat(k3.as_str(), track);
    let kind_label = cat(m.role.as_str(), " message");
    let nav = match &m.nav {
        Some(n) => copy_opt_nav(&m.nav),
        None => copy_opt_nav(&m.parts[ci].nav),
    };
    let line_label = match &nav {
        Some(n) => {
            let d = decimal_string(n.line_number as i128);
            cat("L", d.as_str())
        },
        None => String::new(),
    };
    SearchHit { key, track_id: String::from_str(track), kind_label, line_label, source_text, nav }
}

fn raw_hit_for(re: &RawEvent, source_text: String, track: &str) -> (r: SearchHit)
    ensures
        r.key@ == re.id@ + "-raw-"@ + track@,
        r.track_id@ == track@,
        r.kind_label@ == entry_type_tag(re.raw) + " event"@,
        r.line_label@ == line_label_of(Some(re.nav)),
        r.nav == Some(re.nav),
        r.source_text == source_text,
{
    let k1 = cat(re.id.as_str(), "-raw-");
    let key = cat(k1.as_str(), track);
    let kind_label = cat(type_tag(&re.raw), " event");
    let d = decimal_string(re.nav.line_number as i128);
    let line_label = cat("L", d.as_str());
    let nav = copy_nav(&re.nav);
    SearchHit { key, track_id: String::from_str(track), kind_label, line_label, source_text, nav: Some(nav) }
}

/// Appends the hits of one message.
fn search_message(m: &Message, q: &str, track: &str, out: &mut Vec<SearchHit>)
    ensures
        final(out)@.len() == old(out)@.len() + matched_parts(m.parts@, q@).len(),
        forall|k: int| 0 <= k < old(out)@.len() ==> #[trigger] final(out)@[k] == old(out)@[k],
        forall|k: int|
            0 <= k < matched_parts(m.parts@, q@).len() ==> is_hit(
                #[trigger] final(out)@[old(out)@.len() + k],
                *m,
                matched_parts(m.parts@, q@)[k],
                q@,
                track@,
            ),
{
    let ghost start = out@;
    let mut ci: usize = 0;
    while ci < m.parts.len()
        invariant
            ci <= m.parts@.len(),
            out@.len() == start.len() + matched_parts(m.parts@.take(ci as int), q@).len(),
            forall|k: int| 0 <= k < start.len() ==> #[trigger] out@[k] == start[k],
            forall|k: int|
                0 <= k < matched_parts(m.parts@.take(ci as int), q@).len() ==> is_hit(
                    #[trigger] out@[start.len() + k],
                    *m,
                    matched_parts(m.parts@.take(ci as int), q@)[k],
                    q@,
                    track@,
                ),
        decreases m.parts.len() - ci,
    {
        let ghost before = out@;
        let ghost prev = matched_parts(m.parts@.take(ci as int), q@);
        proof {
            assert(m.parts@.take(ci + 1).drop_last() =~= m.parts@.take(ci as int));
            assert(m.parts@.take(ci + 1).last() == m.parts@[ci as int]);
        }
        match &m.parts[ci].text {
            Some(t) => match snippet_of(t.as_str(), q) {
                None => {},
                Some(s) => {
                    let h = hit_for(m, ci, s, track);
                    out.push(h);
                    proof {
                        assert(matched_parts(m.parts@.take(ci + 1), q@) == prev.push(ci as int));
                        assert forall|k: int|
                            0 <= k < prev.len() + 1 implies is_hit(
                            #[trigger] out@[start.len() + k],
                            *m,
                            prev.push(ci as int)[k],
                            q@,
                            track@,
                        ) by {
                            if k < prev.len() {
                                assert(out@[start.len() + k] == before[start.len() + k]);
                            }
                        }
                    }
                },
            },
            None => {},
        }
        ci = ci + 1;
    }
    assert(m.parts@.take(m.parts@.len() as int) =~= m.parts@);
}

/// Searches an export for `q` (already lowercase): one hit per message part whose
/// lowercased text contains it, in order, then one per raw event whose lowercased JSON
/// text (`raw_texts`, one per raw event) contains it, each with the text around the
/// first match.
pub fn search_in_export(export: &ConversationExport, q: &str, track_id: &str, raw_texts: &Vec<String>) -> (r: Vec<
    SearchHit,
>)
    requires
        raw_texts@.len() == export.raw_events@.len(),
    ensures
        r@.len() == export_hit_slots(export.messages@, texts_view(raw_texts@), q@).len(),
        forall|k: int|
            0 <= k < r@.len() ==> is_export_hit(
                #[trigger] r@[k],
                *export,
                texts_view(raw_texts@),
                export_hit_slots(export.messages@, texts_view(raw_texts@), q@)[k],
                q@,
                track_id@,
            ),
{
    let ghost ms = export.messages@;
    let ghost tv = texts_view(raw_texts@);
    let mut out: Vec<SearchHit> = Vec::new();
    let mut i: usize = 0;
    while i < export.messages.len()
        invariant
            ms == export.messages@,
            i <= ms.len(),
            out@.len() == hit_slots(ms.take(i as int), q@).len(),
            forall|k: int|
                0 <= k < out@.len() ==> is_hit(
                    #[trigger] out@[k],
                    ms[hit_slots(ms.take(i as int), q@)[k].0],
                    hit_slots(ms.take(i as int), q@)[k].1,
                    q@,
                    track_id@,
                ),
        decreases ms.len() - i,
    {
        let ghost before = out@;
        let ghost prev = hit_slots(ms.take(i as int), q@);
        let ghost mp = matched_parts(ms[i as int].parts@, q@);
        proof {
            assert(ms.take(i + 1).drop_last() =~= ms.take(i as int));
            assert(ms.take(i + 1).last() == ms[i as int]);
        }
        search_message(&export.messages[i], q, track_id, &mut out);
        proof {
            let next = hit_slots(ms.take(i + 1), q@);
            assert(next == prev + mp.map_values(|ci: int| (i as int, ci)));
            assert forall|k: int| 0 <= k < out@.len() implies is_hit(
                #[trigger] out@[k],
                ms[next[k].0],
                next[k].1,
                q@,
                track_id@,
            ) by {
                if k < prev.len() {
                    assert(out@[k] == before[k]);
                    assert(next[k] == prev[k]);
                } else {
                    assert(out@[k] == out@[before.len() + (k - before.len())]);
                    assert(next[k] == (i as int, mp[k - prev.len()]));
                }
            }
        }
        i = i + 1;
    }
    assert(ms.take(ms.len() as int) =~= ms);
    let ghost mslots = hit_slots(ms, q@).map_values(|p: (int, int)| (0int, p.0, p.1));
    let ghost n_msg = out@.len();
    assert forall|k: int| 0 <= k < out@.len() implies is_export_hit(#[trigger] out@[k], *export, tv, mslots[k], q@, track_id@) by {}
    let mut j: usize = 0;
    assert(tv.take(0) =~= Seq::<Seq<char>>::empty());
    while j < export.raw_events.len()
        invariant
            ms == export.messages@,
            tv == texts_view(raw_texts@),
            raw_texts@.len() == export.raw_events@.len(),
            j <= raw_texts@.len(),
            n_msg == mslots.len(),
            mslots == hit_slots(ms, q@).map_values(|p: (int, int)| (0int, p.0, p.1)),
            out@.len() == n_msg + raw_hit_slots(tv.take(j as int), q@).len(),
            forall|k: int|
                0 <= k < out@.len() ==> is_export_hit(
                    #[trigger] out@[k],
                    *export,
                    tv,
                    (mslots + raw_hit_slots(tv.take(j as int), q@).map_values(|x: int| (1int, x, 0int)))[k],
                    q@,
                    track_id@,
                ),
        decreases raw_texts@.len() - j,
    {
        let ghost before = out@;
        let ghost prev = raw_hit_slots(tv.take(j as int), q@);
        proof {
            assert(tv.take(j + 1).drop_last() =~= tv.take(j as int));
            assert(tv.take(j + 1).last() == raw_texts@[j as int]@);
        }
        match snippet_of(raw_texts[j].as_str(), q) {
            Some(s) => {
                let h = raw_hit_for(&export.raw_events[j], s, track_id);
                out.push(h);
                proof {
                    let next = prev.push(j as int);
                    assert(raw_hit_slots(tv.take(j + 1), q@) == next);
                    let a = mslots + prev.map_values(|x: int| (1int, x, 0int));
                    let b = mslots + next.map_values(|x: int| (1int, x, 0int));
                    assert forall|k: int| 0 <= k < out@.len() implies is_export_hit(
                        #[trigger] out@[k],
                        *export,
                        tv,
                        b[k],
                        q@,
                        track_id@,
                    ) by {
                        if k < before.len() {
                            assert(out@[k] == before[k]);
                            assert(b[k] == a[k]);
                        } else {
                            assert(b[k] == (1int, j as int, 0int));
                        }
                    }
                }
            },
            None => {
                proof {
                    assert(raw_hit_slots(tv.take(j + 1), q@) == prev);
                }
            },
        }
        j = j + 1;
    }
    assert(tv.take(raw_texts@.len() as int) =~= tv);
    out
}

// ── Searching a conversation ───────────────────────────────────────

/// The scope of a search: the one given, else `all`.
pub open spec fn scope_or_all(scope: Option<Seq<char>>) -> Seq<char> {
    match scope {
        Some(s) => s,
        None => "all"@,
    }
}

/// The scope covers the main track.
pub open spec fn searches_main(scope: Seq<char>) -> bool {
    scope == "all"@ || scope == "main"@
}

/// The scope covers the subagent tracks.
pub open spec fn searches_subagents(scope: Seq<char>) -> bool {
    scope == "all"@ || scope == "subagents"@
}

/// The track name of a subagent export: its agent type, else `sub`.
pub open spec fn sub_track_name(s: ConversationExport) -> Seq<char> {
    or_default(s.agent_type, "sub"@)
}

/// The characters of the texts of each export.
pub open spec fn texts_views(v: Seq<Vec<String>>) -> Seq<Seq<Seq<char>>> {
    v.map_values(|t: Vec<String>| texts_view(t@))
}

/// The (subagent, kind, index, part) positions of the matches in subagent exports, in
/// order; `texts` holds the raw events' JSON texts of each subagent.
pub open spec fn sub_hit_slots(subs: Seq<ConversationExport>, texts: Seq<Seq<Seq<char>>>, q: Seq<char>) -> Seq<
    (int, int, int, int),
>
    decreases subs.len(),
{
    if subs.len() == 0 || texts.len() == 0 {
        Seq::empty()
    } else {
        sub_hit_slots(subs.drop_last(), texts.drop_last(), q) + export_hit_slots(
            subs.last().messages@,
            texts.last(),
            q,
        ).map_values(|s: (int, int, int)| (subs.len() - 1, s.0, s.1, s.2))
    }
}

/// The positions of the matches of a conversation search, in the order they are
/// reported: the main track (subagent `-1`) first, then each subagent in turn.
pub open spec fn conversation_hit_slots(
    export: ConversationExport,
    main_texts: Seq<Seq<char>>,
    sub_texts: Seq<Seq<Seq<char>>>,
    q: Seq<char>,
    scope: Seq<char>,
) -> Seq<(int, int, int, int)> {
    (if searches_main(scope) {
        export_hit_slots(export.messages@, main_texts, q).map_values(|s: (int, int, int)| (-1, s.0, s.1, s.2))
    } else {
        Seq::empty()
    }) + (if searches_subagents(scope) {
        sub_hit_slots(export.subagent_transcripts@, sub_texts, q)
    } else {
        Seq::empty()
    })
}

/// `h` reports the match at `slot` of a conversation search.
pub open spec fn is_conversation_hit(
    h: SearchHit,
    export: ConversationExport,
    main_texts: Seq<Seq<char>>,
    sub_texts: Seq<Seq<Seq<char>>>,
    slot: (int, int, int, int),
    q: Seq<char>,
) -> bool {
    if slot.0 < 0 {
        is_export_hit(h, export, main_texts, (slot.1, slot.2, slot.3), q, "main"@)
    } else {
        let s = export.subagent_transcripts@[slot.0];
        is_export_hit(h, s, sub_texts[slot.0], (slot.1, slot.2, slot.3), q, sub_track_name(s))
    }
}

/// The most results a conversation search reports.
pub open spec fn search_limit() -> int {
    200
}

fn track_name(s: &ConversationExport) -> (r: String)
    ensures
        r@ == sub_track_name(*s),
{
    match &s.agent_type {
        Some(a) => a.clone(),
        None => String::from_str("sub"),
    }
}

/// The JSON texts of the raw events match the exports.
pub open spec fn texts_fit(export: ConversationExport, main_texts: Seq<String>, sub_texts: Seq<Vec<String>>) -> bool {
    &&& main_texts.len() == export.raw_events@.len()
    &&& sub_texts.len() == export.subagent_transcripts@.len()
    &&& forall|j: int|
        0 <= j < sub_texts.len() ==> #[trigger] sub_texts[j]@.len() == export.subagent_transcripts@[j].raw_events@.len()
}

/// Searches a conversation for `q`, case-insensitively: the main track when the scope
/// (default `all`) is `all` or `main`, the subagent tracks when it is `all` or
/// `subagents`; at most 200 results. `main_raw_texts` and `sub_raw_texts` are the JSON
/// texts of the raw events of the main track and of each subagent track.
pub fn search_conversation(
    export: &ConversationExport,
    q: &str,
    scope: Option<&str>,
    main_raw_texts: &Vec<String>,
    sub_raw_texts: &Vec<Vec<String>>,
) -> (r: Vec<SearchHit>)
    requires
        texts_fit(*export, main_raw_texts@, sub_raw_texts@),
    ensures
        ({
            let ql = lowercase(q@);
            let sc = scope_or_all(
                match scope {
                    Some(s) => Some(s@),
                    None => None,
                },
            );
            let mt = texts_view(main_raw_texts@);
            let st = texts_views(sub_raw_texts@);
            let slots = conversation_hit_slots(*export, mt, st, ql, sc);
            &&& r@.len() == (if slots.len() < search_limit() { slots.len() as int } else { search_limit() })
            &&& forall|k: int| 0 <= k < r@.len() ==> is_conversation_hit(#[trigger] r@[k], *export, mt, st, slots[k], ql)
        }),
{
    proof {
        reveal_strlit("all");
        reveal_strlit("main");
        reveal_strlit("subagents");
    }
    let q_lower = to_lowercase(q);
    let ghost ql = q_lower@;
    let ghost mt = texts_view(main_raw_texts@);
    let ghost st = texts_views(sub_raw_texts@);
    let sc: &str = match scope {
        Some(s) => s,
        None => "all",
    };
    let ghost subs = export.subagent_transcripts@;
    let ghost main_slots: Seq<(int, int, int, int)> = if searches_main(sc@) {
        export_hit_slots(export.messages@, mt, ql).map_values(|s: (int, int, int)| (-1, s.0, s.1, s.2))
    } else {
        Seq::empty()
    };
    let mut results: Vec<SearchHit> = Vec::new();
    if str_eq(sc, "all") || str_eq(sc, "main") {
        let mut v = search_in_export(export, q_lower.as_str(), "main", main_raw_texts);
        results.append(&mut v);
    }
    assert(results@.len() == main_slots.len());
    assert forall|k: int| 0 <= k < results@.len() implies is_conversation_hit(
        #[trigger] results@[k],
        *export,
        mt,
        st,
        main_slots[k],
        ql,
    ) by {}
    if str_eq(sc, "all") || str_eq(sc, "subagents") {
        let mut j: usize = 0;
        assert(subs.take(0) =~= Seq::<ConversationExport>::empty());
        assert(main_slots + sub_hit_slots(subs.take(0), st.take(0), ql) =~= main_slots);
        while j < export.subagent_transcripts.len()
            invariant
                subs == export.subagent_transcripts@,
                texts_fit(*export, main_raw_texts@, sub_raw_texts@),
                st == texts_views(sub_raw_texts@),
                ql == q_lower@,
                j <= subs.len(),
                results@.len() == (main_slots + sub_hit_slots(subs.take(j as int), st.take(j as int), ql)).len(),
                forall|k: int|
                    0 <= k < results@.len() ==> is_conversation_hit(
                        #[trigger] results@[k],
                        *export,
                        mt,
                        st,
                        (main_slots + sub_hit_slots(subs.take(j as int), st.take(j as int), ql))[k],
                        ql,
                    ),
            decreases subs.len() - j,
        {
            let ghost before = results@;
            let ghost prev = main_slots + sub_hit_slots(subs.take(j as int), st.take(j as int), ql);
            let track = track_name(&export.subagent_transcripts[j]);
            assert(sub_raw_texts@[j as int]@.len() == subs[j as int].raw_events@.len());
            let mut v = search_in_export(&export.subagent_transcripts[j], q_lower.as_str(), track.as_str(), &sub_raw_texts[j]);
            let ghost found = v@;
            let ghost hs = export_hit_slots(subs[j as int].messages@, st[j as int], ql);
            results.append(&mut v);
            proof {
                assert(subs.take(j + 1).drop_last() =~= subs.take(j as int));
                assert(subs.take(j + 1).last() == subs[j as int]);
                assert(st.take(j + 1).drop_last() =~= st.take(j as int));
                assert(st.take(j + 1).last() == st[j as int]);
                assert(st[j as int] == texts_view(sub_raw_texts@[j as int]@));
                let added = hs.map_values(|s: (int, int, int)| (j as int, s.0, s.1, s.2));
                assert(sub_hit_slots(subs.take(j + 1), st.take(j + 1), ql) == sub_hit_slots(
                    subs.take(j as int),
                    st.take(j as int),
                    ql,
                ) + added);
                let next = main_slots + sub_hit_slots(subs.take(j + 1), st.take(j + 1), ql);
                assert(next =~= prev + added);
                assert forall|k: int| 0 <= k < results@.len() implies is_conversation_hit(
                    #[trigger] results@[k],
                    *export,
                    mt,
                    st,
                    next[k],
                    ql,
                ) by {
                    if k < before.len() {
                        assert(results@[k] == before[k]);
                        assert(next[k] == prev[k]);
                    } else {
                        assert(results@[k] == found[k - before.len()]);
                        assert(next[k] == added[k - before.len()]);
                    }
                }
            }
            j = j + 1;
        }
        assert(subs.take(subs.len() as int) =~= subs);
        assert(st.take(st.len() as int) =~= st);
    }
    let ghost all_slots = conversation_hit_slots(*export, mt, st, ql, sc@);
    assert(all_slots =~= main_slots + (if searches_subagents(sc@) {
        sub_hit_slots(subs, st, ql)
    } else {
        Seq::empty()
    }));
    let ghost full = results@;
    results.truncate(200);
    assert forall|k: int| 0 <= k < results@.len() implies is_conversation_hit(
        #[trigger] results@[k],
        *export,
        mt,
        st,
        all_slots[k],
        ql,
    ) by {
        assert(results@[k] == full[k]);
    }
    results
}

proof fn lemma_sub_hit_slots_tracks(subs: Seq<ConversationExport>, texts: Seq<Seq<Seq<char>>>, q: Seq<char>)
    ensures
        forall|k: int|
            0 <= k < sub_hit_slots(subs, texts, q).len() ==> 0 <= #[trigger] sub_hit_slots(subs, texts, q)[k].0
                < subs.len(),
    decreases subs.len(),
{
    if subs.len() > 0 && texts.len() > 0 {
        let prev = sub_hit_slots(subs.drop_last(), texts.drop_last(), q);
        lemma_sub_hit_slots_tracks(subs.drop_last(), texts.drop_last(), q);
        let added = export_hit_slots(subs.last().messages@, texts.last(), q).map_values(
            |s: (int, int, int)| (subs.len() - 1, s.0, s.1, s.2),
        );
        assert forall|k: int| 0 <= k < sub_hit_slots(subs, texts, q).len() implies 0
            <= #[trigger] sub_hit_slots(subs, texts, q)[k].0 < subs.len() by {
            if k < prev.len() {
                assert(sub_hit_slots(subs, texts, q)[k] == prev[k]);
            } else {
                assert(sub_hit_slots(subs, texts, q)[k] == added[k - prev.len()]);
            }
        }
    }
}

/// The scope decides the tracks searched: `main` reports only main-track matches,
/// `subagents` only subagent matches, and `all` the main track's followed by the
/// subagents'.
pub proof fn lemma_search_scope_tracks(
    export: ConversationExport,
    main_texts: Seq<Seq<char>>,
    sub_texts: Seq<Seq<Seq<char>>>,
    q: Seq<char>,
)
    ensures
        forall|k: int|
            0 <= k < conversation_hit_slots(export, main_texts, sub_texts, q, "main"@).len()
                ==> #[trigger] conversation_hit_slots(export, main_texts, sub_texts, q, "main"@)[k].0 == -1,
        forall|k: int|
            0 <= k < conversation_hit_slots(export, main_texts, sub_texts, q, "subagents"@).len() ==> 0
                <= #[trigger] conversation_hit_slots(export, main_texts, sub_texts, q, "subagents"@)[k].0
                < export.subagent_transcripts@.len(),
        conversation_hit_slots(export, main_texts, sub_texts, q, "all"@) == conversation_hit_slots(
            export,
            main_texts,
            sub_texts,
            q,
            "main"@,
        ) + conversation_hit_slots(export, main_texts, sub_texts, q, "subagents"@),
{
    reveal_strlit("main");
    reveal_strlit("all");
    reveal_strlit("subagents");
    lemma_sub_hit_slots_tracks(export.subagent_transcripts@, sub_texts, q);
    let m = export_hit_slots(export.messages@, main_texts, q).map_values(|s: (int, int, int)| (-1, s.0, s.1, s.2));
    assert("main"@ != "all"@ && "main"@ != "subagents"@) by {
        assert("main"@.len() != "all"@.len());
        assert("main"@.len() != "subagents"@.len());
    }
    assert("subagents"@ != "all"@ && "subagents"@ != "main"@) by {
        assert("subagents"@.len() != "all"@.len());
    }
    assert(conversation_hit_slots(export, main_texts, sub_texts, q, "main"@) =~= m);
    assert(conversation_hit_slots(export, main_texts, sub_texts, q, "subagents"@) =~= sub_hit_slots(
        export.subagent_transcripts@,
        sub_texts,
        q,
    ));
}

// ── What a search finds ────────────────────────────────────────────

proof fn lemma_encode_utf8_append(a: Seq<char>, b: Seq<char>)
    ensures
        encode_utf8(a + b) == encode_utf8(a) + encode_utf8(b),
    decreases a.len(),
{
    if a.len() == 0 {
        assert(a + b =~= b);
        assert(encode_utf8(a) + encode_utf8(b) =~= encode_utf8(b));
    } else {
        lemma_encode_utf8_append(a.drop_first(), b);
        assert((a + b).drop_first() =~= a.drop_first() + b);
        assert((a + b)[0] == a[0]);
        assert(encode_utf8(a + b) =~= encode_utf8(a) + encode_utf8(b));
    }
}

proof fn lemma_first_occurrence_exists(h: Seq<u8>, n: Seq<u8>, k: int)
    requires
        bytes_occur_at(h, n, k),
    ensures
        first_occurrence(h, n) is Some,
    decreases k,
{
    if exists|j: int| 0 <= j < k && bytes_occur_at(h, n, j) {
        let j = choose|j: int| 0 <= j < k && bytes_occur_at(h, n, j);
        lemma_first_occurrence_exists(h, n, j);
    } else {
        assert(is_first_occurrence(h, n, k));
    }
}

/// A text whose lowercase form contains `q` (already lowercase) has a snippet around
/// the match.
pub proof fn lemma_contained_query_has_snippet(text: Seq<char>, q: Seq<char>)
    requires
        contains(lowercase(text), q),
    ensures
        snippet_range(text, q) is Some,
{
    let h = lowercase(text);
    let i = choose|i: int| occurs_at(h, q, i);
    let pre = h.take(i);
    let post = h.skip(i + q.len());
    assert(h =~= pre + q + post);
    lemma_encode_utf8_append(pre + q, post);
    lemma_encode_utf8_append(pre, q);
    let eh = encode_utf8(h);
    let k = encode_utf8(pre).len() as int;
    assert(eh.subrange(k, k + encode_utf8(q).len()) =~= encode_utf8(q));
    lemma_first_occurrence_exists(eh, encode_utf8(q), k);
}

proof fn lemma_matched_part_listed(parts: Seq<GenericPart>, q: Seq<char>, ci: int)
    requires
        0 <= ci < parts.len(),
        part_matched(parts[ci], q),
    ensures
        matched_parts(parts, q).contains(ci),
    decreases parts.len(),
{
    let rest = matched_parts(parts.drop_last(), q);
    if ci == parts.len() - 1 {
        assert(matched_parts(parts, q) == rest.push(ci));
        assert(matched_parts(parts, q)[rest.len() as int] == ci);
    } else {
        lemma_matched_part_listed(parts.drop_last(), q, ci);
        let w = choose|w: int| 0 <= w < rest.len() && rest[w] == ci;
        if part_matched(parts.last(), q) {
            assert(matched_parts(parts, q)[w] == ci);
        }
    }
}

/// Every message part with a text whose lowercase form contains `q` (already lowercase)
/// is a match of the search, whatever the part's type.
pub proof fn lemma_matching_part_is_hit(ms: Seq<Message>, q: Seq<char>, i: int, ci: int)
    requires
        0 <= i < ms.len(),
        0 <= ci < ms[i].parts@.len(),
        match ms[i].parts@[ci].text {
            Some(t) => contains(lowercase(t@), q),
            None => false,
        },
    ensures
        hit_slots(ms, q).contains((i, ci)),
    decreases ms.len(),
{
    let prev = hit_slots(ms.drop_last(), q);
    let added = matched_parts(ms.last().parts@, q).map_values(|c: int| (ms.len() - 1, c));
    assert(hit_slots(ms, q) == prev + added);
    if i == ms.len() - 1 {
        let t = ms[i].parts@[ci].text->0;
        lemma_contained_query_has_snippet(t@, q);
        lemma_matched_part_listed(ms.last().parts@, q, ci);
        let mp = matched_parts(ms.last().parts@, q);
        let w = choose|w: int| 0 <= w < mp.len() && mp[w] == ci;
        assert((prev + added)[prev.len() + w] == (i, ci));
    } else {
        assert(ms.drop_last()[i] == ms[i]);
        lemma_matching_part_is_hit(ms.drop_last(), q, i, ci);
        let w = choose|w: int| 0 <= w < prev.len() && prev[w] == (i, ci);
        assert((prev + added)[w] == (i, ci));
    }
}

/// A conversation search whose scope covers the main track counts, among its matches,
/// every main-track message part with a text whose lowercase form contains the
/// lowercased query, whatever the part's type.
pub proof fn lemma_conversation_search_finds_matching_parts(
    export: ConversationExport,
    main_texts: Seq<Seq<char>>,
    sub_texts: Seq<Seq<Seq<char>>>,
    q: Seq<char>,
    scope: Seq<char>,
    i: int,
    ci: int,
)
    requires
        searches_main(scope),
        0 <= i < export.messages@.len(),
        0 <= ci < export.messages@[i].parts@.len(),
        match export.messages@[i].parts@[ci].text {
            Some(t) => contains(lowercase(t@), lowercase(q)),
            None => false,
        },
    ensures
        conversation_hit_slots(export, main_texts, sub_texts, lowercase(q), scope).contains((-1, 0, i, ci)),
{
    let ql = lowercase(q);
    lemma_matching_part_is_hit(export.messages@, ql, i, ci);
    let hs = hit_slots(export.messages@, ql);
    let w = choose|w: int| 0 <= w < hs.len() && hs[w] == (i, ci);
    let es = export_hit_slots(export.messages@, main_texts, ql);
    assert(es[w] == (0int, i, ci));
    let main = es.map_values(|s: (int, int, int)| (-1, s.0, s.1, s.2));
    assert(main[w] == (-1int, 0int, i, ci));
    let all = conversation_hit_slots(export, main_texts, sub_texts, ql, scope);
    assert(all[w] == main[w]);
}

proof fn lemma_matched_parts_match(parts: Seq<GenericPart>, q: Seq<char>)
    ensures
        forall|k: int|
            0 <= k < matched_parts(parts, q).len() ==> {
                let ci = #[trigger] matched_parts(parts, q)[k];
                0 <= ci < parts.len() && part_matched(parts[ci], q)
            },
    decreases parts.len(),
{
    if parts.len() > 0 {
        lemma_matched_parts_match(parts.drop_last(), q);
        let rest = matched_parts(parts.drop_last(), q);
        assert forall|k: int| 0 <= k < matched_parts(parts, q).len() implies {
            let ci = #[trigger] matched_parts(parts, q)[k];
            0 <= ci < parts.len() && part_matched(parts[ci], q)
        } by {
            if k < rest.len() {
                assert(matched_parts(parts, q)[k] == rest[k]);
                assert(parts.drop_last()[rest[k]] == parts[rest[k]]);
            }
        }
    }
}

/// Every match that a search reports is a message part with a text whose lowercase
/// form holds the bytes of `q` (already lowercase).
pub proof fn lemma_hits_are_matching_parts(ms: Seq<Message>, q: Seq<char>)
    ensures
        forall|k: int|
            0 <= k < hit_slots(ms, q).len() ==> {
                let slot = #[trigger] hit_slots(ms, q)[k];
                &&& 0 <= slot.0 < ms.len()
                &&& 0 <= slot.1 < ms[slot.0].parts@.len()
                &&& match ms[slot.0].parts@[slot.1].text {
                    Some(t) => exists|b: int| bytes_occur_at(encode_utf8(lowercase(t@)), encode_utf8(q), b),
                    None => false,
                }
            },
    decreases ms.len(),
{
    if ms.len() > 0 {
        let prev = hit_slots(ms.drop_last(), q);
        lemma_hits_are_matching_parts(ms.drop_last(), q);
        let mp = matched_parts(ms.last().parts@, q);
        lemma_matched_parts_match(ms.last().parts@, q);
        let added = mp.map_values(|c: int| (ms.len() - 1, c));
        assert(hit_slots(ms, q) == prev + added);
        assert forall|k: int| 0 <= k < hit_slots(ms, q).len() implies {
            let slot = #[trigger] hit_slots(ms, q)[k];
            &&& 0 <= slot.0 < ms.len()
            &&& 0 <= slot.1 < ms[slot.0].parts@.len()
            &&& match ms[slot.0].parts@[slot.1].text {
                Some(t) => exists|b: int| bytes_occur_at(encode_utf8(lowercase(t@)), encode_utf8(q), b),
                None => false,
            }
        } by {
            if k < prev.len() {
                assert(hit_slots(ms, q)[k] == prev[k]);
                assert(ms.drop_last()[prev[k].0] == ms[prev[k].0]);
            } else {
                let ci = mp[k - prev.len()];
                assert(hit_slots(ms, q)[k] == (ms.len() - 1, ci));
                let t = ms.last().parts@[ci].text->0;
                let h = encode_utf8(lowercase(t@));
                let p = choose|i: int| is_first_occurrence(h, encode_utf8(q), i);
                assert(bytes_occur_at(h, encode_utf8(q), p));
            }
        }
    }
}

} // verus!

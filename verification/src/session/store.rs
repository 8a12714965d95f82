use vstd::prelude::*;

use crate::json::json_object_members;
use crate::json::json_object_string_members;
use crate::json::lookup_member;
use crate::json::member_str;
use crate::json::opt_view;
use crate::models::ConversationSummary;
use crate::models::copy_summary;
use crate::text::cat;
use crate::text::chars_of;
use crate::text::contains;
use crate::text::contains_chars;
use crate::text::ends_with;
use crate::text::ends_with_chars;
use crate::text::is_blank;
use crate::text::lowercase;
use crate::text::replace_char;
use crate::text::replace_chars;
use crate::text::starts_with;
use crate::text::starts_with_chars;
use crate::text::str_eq;
use crate::text::str_is_blank;
use crate::text::string_from_chars;
use crate::text::string_of_range;
use crate::text::to_lowercase;
use crate::timefmt::rfc3339_millis;
use crate::timefmt::rfc3339_to_millis;
use crate::session::parser::or_default;

verus! {

// ── Paths ──────────────────────────────────────────────────────────

/// `PathBuf::join` on Unix: an absolute `rel` replaces `base`; otherwise a `/` is put
/// between them unless `base` is empty or already ends with one.
pub open spec fn path_join(base: Seq<char>, rel: Seq<char>) -> Seq<char> {
    if rel.len() > 0 && rel[0] == '/' {
        rel
    } else if base.len() == 0 || base.last() == '/' {
        base + rel
    } else {
        base + "/"@ + rel
    }
}

/// Joins a relative path onto a base path, as `PathBuf::join` does.
pub fn join_path(base: &str, rel: &str) -> (r: String)
    ensures
        r@ == path_join(base@, rel@),
{
    let b = chars_of(base);
    let rc = chars_of(rel);
    if rc.len() > 0 && rc[0] == '/' {
        String::from_str(rel)
    } else if b.len() == 0 || b[b.len() - 1] == '/' {
        cat(base, rel)
    } else {
        let with_sep = cat(base, "/");
        let r = cat(with_sep.as_str(), rel);
        r
    }
}

/// The home directory to use: `$HOME` when it is set, else `/tmp`.
pub open spec fn home_or_tmp(home: Option<String>) -> Seq<char> {
    match home {
        Some(h) => h@,
        None => "/tmp"@,
    }
}

/// The home directory, given the value of `$HOME` (`None` when it is not set).
pub fn dirs_fallback(home: Option<String>) -> (r: String)
    ensures
        r@ == home_or_tmp(home),
{
    match home {
        Some(h) => h,
        None => String::from_str("/tmp"),
    }
}

/// `~/.omp/agent/sessions` under the home directory.
pub open spec fn sessions_dir_of(home: Option<String>) -> Seq<char> {
    path_join(path_join(path_join(home_or_tmp(home), ".omp"@), "agent"@), "sessions"@)
}

/// The default sessions directory, given the value of `$HOME`.
pub fn default_sessions_dir(home: Option<String>) -> (r: String)
    ensures
        r@ == sessions_dir_of(home),
{
    let h = dirs_fallback(home);
    let a = join_path(h.as_str(), ".omp");
    let b = join_path(a.as_str(), "agent");
    join_path(b.as_str(), "sessions")
}

/// The readable path that a session directory name stands for: `/`, `\` and `:` were
/// written `-`; `-` alone is the home directory, `--<path>--` is the older absolute
/// form, `-tmp-<rel>` is under the temporary directory and `-<rel>` is under the home
/// directory.
pub open spec fn decoded_dir(encoded: Seq<char>, home: Seq<char>, tmp: Seq<char>) -> Seq<char> {
    if encoded == "-"@ {
        home
    } else if starts_with(encoded, "--"@) && ends_with(encoded, "--"@) && encoded.len() >= 4 {
        "/"@ + replace_char(encoded.subrange(2, encoded.len() - 2), '-', '/')
    } else if starts_with(encoded, "-tmp-"@) {
        tmp + "/"@ + replace_char(encoded.skip(5), '-', '/')
    } else if starts_with(encoded, "-"@) {
        home + "/"@ + replace_char(encoded.skip(1), '-', '/')
    } else {
        encoded
    }
}

/// Decode a session directory name back to a readable path.
pub fn decode_session_dir(encoded: &str, home: &str, tmp: &str) -> (r: String)
    ensures
        r@ == decoded_dir(encoded@, home@, tmp@),
{
    proof {
        reveal_strlit("-tmp-");
        reveal_strlit("-");
        reveal_strlit("--");
    }
    let e = chars_of(encoded);
    let dash = chars_of("-");
    let tmp_prefix = chars_of("-tmp-");
    let double = chars_of("--");
    if str_eq(encoded, "-") {
        return String::from_str(home);
    }
    if starts_with_chars(e.as_slice(), double.as_slice()) && ends_with_chars(e.as_slice(), double.as_slice())
        && e.len() >= 4 {
        let inner = string_of_range(e.as_slice(), 2, e.len() - 2);
        let ic = chars_of(inner.as_str());
        let decoded = string_from_chars(replace_chars(ic.as_slice(), '-', '/').as_slice());
        return cat("/", decoded.as_str());
    }
    if starts_with_chars(e.as_slice(), tmp_prefix.as_slice()) {
        let rel = string_of_range(e.as_slice(), 5, e.len());
        let rc = chars_of(rel.as_str());
        let decoded = string_from_chars(replace_chars(rc.as_slice(), '-', '/').as_slice());
        let head = cat(tmp, "/");
        return cat(head.as_str(), decoded.as_str());
    }
    if starts_with_chars(e.as_slice(), dash.as_slice()) {
        let rel = string_of_range(e.as_slice(), 1, e.len());
        let rc = chars_of(rel.as_str());
        let decoded = string_from_chars(replace_chars(rc.as_slice(), '-', '/').as_slice());
        let head = cat(home, "/");
        return cat(head.as_str(), decoded.as_str());
    }
    String::from_str(encoded)
}

/// Whether a file name is that of a session log (`*.jsonl`).
pub fn is_jsonl_file_name(name: &str) -> (r: bool)
    ensures
        r == ends_with(name@, ".jsonl"@),
{
    let n = chars_of(name);
    let s = chars_of(".jsonl");
    ends_with_chars(n.as_slice(), s.as_slice())
}

/// Whether `Path::extension` of a file name is `jsonl`: the name ends with `.jsonl`
/// and that dot does not open the name.
pub fn has_jsonl_extension(name: &str) -> (r: bool)
    ensures
        r == (ends_with(name@, ".jsonl"@) && name@.len() > 6),
{
    let n = chars_of(name);
    let s = chars_of(".jsonl");
    ends_with_chars(n.as_slice(), s.as_slice()) && n.len() > 6
}

/// The number of names that have the `jsonl` extension.
pub open spec fn jsonl_count(names: Seq<Seq<char>>) -> nat
    decreases names.len(),
{
    if names.len() == 0 {
        0
    } else {
        let last = names.last();
        jsonl_count(names.drop_last()) + if ends_with(last, ".jsonl"@) && last.len() > 6 {
            1nat
        } else {
            0nat
        }
    }
}

/// The number of subagent logs among the file names of a session's artifact directory.
pub fn count_subagent_logs(names: &[String]) -> (r: usize)
    ensures
        r == jsonl_count(names@.map_values(|n: String| n@)),
{
    let ghost views = names@.map_values(|n: String| n@);
    let mut count: usize = 0;
    let mut i: usize = 0;
    while i < names.len()
        invariant
            i <= names@.len(),
            views == names@.map_values(|n: String| n@),
            count <= i,
            count == jsonl_count(views.take(i as int)),
        decreases names.len() - i,
    {
        proof {
            assert(views.take(i + 1).drop_last() =~= views.take(i as int));
        }
        if has_jsonl_extension(names[i].as_str()) {
            count = count + 1;
        }
        i = i + 1;
    }
    assert(views.take(names@.len() as int) =~= views);
    count
}

// ── Session listing ────────────────────────────────────────────────

/// Represents a discovered session for listing.
#[derive(Clone, Debug)]
pub struct SessionInfo {
    pub id: String,
    pub title: Option<String>,
    pub cwd: String,
    pub timestamp: String,
    pub file_path: String,
    pub jsonl_file: String,
    pub message_count: i64,
    pub subagent_count: i64,
    /// the model named by the session's last `model_change` line
    pub model: Option<String>,
}

/// The listing entry of a session, from its metadata, readable directory and number of
/// subagent logs.
pub fn summary_from_info(info: SessionInfo, decoded_dir: String, subagent_count: i64) -> (r: ConversationSummary)
    ensures
        r.id == info.id,
        r.title == info.title,
        r.directory == Some(decoded_dir),
        r.git_branch is None,
        r.version matches Some(v) && v@ == "3"@,
        r.project_id is None,
        r.parent_id is None,
        r.time_created == rfc3339_to_millis(info.timestamp@),
        r.time_updated == rfc3339_to_millis(info.timestamp@),
        r.model matches Some(m) && m@ == or_default(info.model, "Unknown"@),
        r.message_count == info.message_count,
        r.subagent_count == subagent_count,
        r.first_problem is None,
{
    let ts = rfc3339_millis(info.timestamp.as_str());
    ConversationSummary {
        id: info.id,
        title: info.title,
        directory: Some(decoded_dir),
        git_branch: None,
        version: Some(String::from_str("3")),
        project_id: None,
        parent_id: None,
        time_created: ts,
        time_updated: ts,
        model: Some(match info.model {
            Some(m) => m,
            None => String::from_str("Unknown"),
        }),
        message_count: info.message_count,
        subagent_count,
        first_problem: None,
    }
}

/// The rank by which the listing orders sessions: a missing time ranks below every time.
pub open spec fn time_rank(t: Option<i64>) -> int {
    match t {
        Some(x) => x as int,
        None => i64::MIN - 1,
    }
}

/// Where a stable sort, most recent first, puts `x` among `sorted`: before the first
/// entry that is strictly older.
pub open spec fn insertion_index(x: ConversationSummary, sorted: Seq<ConversationSummary>) -> int
    decreases sorted.len(),
{
    if sorted.len() == 0 {
        0
    } else if time_rank(sorted[0].time_updated) < time_rank(x.time_updated) {
        0
    } else {
        1 + insertion_index(x, sorted.drop_first())
    }
}

/// The sessions stably sorted by update time, most recent first.
pub open spec fn sorted_by_update(s: Seq<ConversationSummary>) -> Seq<ConversationSummary>
    decreases s.len(),
{
    if s.len() == 0 {
        s
    } else {
        let t = sorted_by_update(s.drop_last());
        t.insert(insertion_index(s.last(), t), s.last())
    }
}

/// Most recent first: no entry is older than one after it.
pub open spec fn is_newest_first(s: Seq<ConversationSummary>) -> bool {
    forall|i: int, j: int|
        0 <= i < j < s.len() ==> time_rank(#[trigger] s[i].time_updated) >= time_rank(#[trigger] s[j].time_updated)
}

proof fn lemma_insertion_index_is_first_older(x: ConversationSummary, sorted: Seq<ConversationSummary>, p: int)
    requires
        0 <= p <= sorted.len(),
        forall|j: int| 0 <= j < p ==> time_rank(#[trigger] sorted[j].time_updated) >= time_rank(x.time_updated),
        p < sorted.len() ==> time_rank(sorted[p].time_updated) < time_rank(x.time_updated),
    ensures
        insertion_index(x, sorted) == p,
    decreases p,
{
    if p > 0 {
        assert(time_rank(sorted[0].time_updated) >= time_rank(x.time_updated));
        let rest = sorted.drop_first();
        assert forall|j: int| 0 <= j < p - 1 implies time_rank(#[trigger] rest[j].time_updated) >= time_rank(x.time_updated) by {
            assert(rest[j] == sorted[j + 1]);
        }
        lemma_insertion_index_is_first_older(x, rest, p - 1);
    }
}

proof fn lemma_insertion_index_bounds(x: ConversationSummary, sorted: Seq<ConversationSummary>)
    ensures
        0 <= insertion_index(x, sorted) <= sorted.len(),
        forall|j: int| 0 <= j < insertion_index(x, sorted) ==> time_rank(#[trigger] sorted[j].time_updated) >= time_rank(x.time_updated),
        insertion_index(x, sorted) < sorted.len() ==> time_rank(sorted[insertion_index(x, sorted)].time_updated) < time_rank(x.time_updated),
    decreases sorted.len(),
{
    if sorted.len() > 0 && time_rank(sorted[0].time_updated) >= time_rank(x.time_updated) {
        let rest = sorted.drop_first();
        lemma_insertion_index_bounds(x, rest);
        assert forall|j: int| 0 <= j < insertion_index(x, sorted) implies time_rank(#[trigger] sorted[j].time_updated) >= time_rank(x.time_updated) by {
            if j > 0 {
                assert(sorted[j] == rest[j - 1]);
            }
        }
    }
}

/// The sorted listing is ordered most recent first.
pub proof fn lemma_sorted_by_update_newest_first(s: Seq<ConversationSummary>)
    ensures
        is_newest_first(sorted_by_update(s)),
        sorted_by_update(s).len() == s.len(),
    decreases s.len(),
{
    if s.len() > 0 {
        let t = sorted_by_update(s.drop_last());
        lemma_sorted_by_update_newest_first(s.drop_last());
        let x = s.last();
        let p = insertion_index(x, t);
        lemma_insertion_index_bounds(x, t);
        let u = t.insert(p, x);
        assert forall|i: int, j: int| 0 <= i < j < u.len() implies time_rank(#[trigger] u[i].time_updated) >= time_rank(#[trigger] u[j].time_updated) by {
            if j < p {
                assert(u[i] == t[i] && u[j] == t[j]);
            } else if j == p {
                assert(u[i] == t[i]);
            } else if i < p {
                assert(u[i] == t[i] && u[j] == t[j - 1]);
                if p < t.len() {
                    assert(time_rank(t[p].time_updated) >= time_rank(t[j - 1].time_updated) || p == j - 1);
                }
            } else if i == p {
                assert(u[j] == t[j - 1]);
                assert(time_rank(t[p].time_updated) < time_rank(x.time_updated));
                assert(p == j - 1 || time_rank(t[p].time_updated) >= time_rank(t[j - 1].time_updated));
            } else {
                assert(u[i] == t[i - 1] && u[j] == t[j - 1]);
            }
        }
    }
}

/// The sorted listing holds exactly the sessions it was given.
pub proof fn lemma_sorted_by_update_permutes(s: Seq<ConversationSummary>)
    ensures
        sorted_by_update(s).to_multiset() == s.to_multiset(),
    decreases s.len(),
{
    broadcast use vstd::seq_lib::group_to_multiset_ensures;
    if s.len() > 0 {
        let t = sorted_by_update(s.drop_last());
        lemma_sorted_by_update_permutes(s.drop_last());
        lemma_sorted_by_update_newest_first(s.drop_last());
        lemma_insertion_index_bounds(s.last(), t);
        assert(s =~= s.drop_last().push(s.last()));
    }
}

/// Sort sessions by update time, most recent first; sessions with equal times keep
/// their order.
pub fn sort_by_updated_desc(sessions: Vec<ConversationSummary>) -> (r: Vec<ConversationSummary>)
    ensures
        r@ == sorted_by_update(sessions@),
{
    let mut out: Vec<ConversationSummary> = Vec::new();
    let ghost all = sessions@;
    for x in it: sessions.into_iter()
        invariant
            it.seq() == all,
            out@ == sorted_by_update(all.take(it.index() as int)),
    {
        let ghost k = it.index() as int;
        assert(x == all[k]);
        proof {
            assert(all.take(k + 1).drop_last() =~= all.take(k));
            assert(all.take(k + 1).last() == all[k]);
        }
        let mut p: usize = 0;
        while p < out.len()
            invariant
                p <= out@.len(),
                forall|j: int| 0 <= j < p ==> time_rank(#[trigger] out@[j].time_updated) >= time_rank(x.time_updated),
            ensures
                p <= out@.len(),
                forall|j: int| 0 <= j < p ==> time_rank(#[trigger] out@[j].time_updated) >= time_rank(x.time_updated),
                p < out@.len() ==> time_rank(out@[p as int].time_updated) < time_rank(x.time_updated),
            decreases out.len() - p,
        {
            let older = match (out[p].time_updated, x.time_updated) {
                (None, Some(_)) => true,
                (Some(a), Some(b)) => a < b,
                _ => false,
            };
            if older {
                break;
            }
            p = p + 1;
        }
        proof {
            lemma_insertion_index_is_first_older(x, out@, p as int);
        }
        out.insert(p, x);
    }
    proof {
        assert(all.take(all.len() as int) =~= all);
    }
    out
}

/// One directory of the sessions directory, as scanned: its name and its files.
#[derive(Clone, Debug)]
pub struct ScannedDir {
    pub dir_name: String,
    pub files: Vec<ScannedFile>,
}

/// One file of a session directory, as scanned: its name, its metadata when it could
/// be read and has a session header, and the number of its subagent logs.
#[derive(Clone, Debug)]
pub struct ScannedFile {
    pub file_name: String,
    pub info: Option<SessionInfo>,
    pub subagent_count: i64,
}


/// `summary` is the listing entry of a session with metadata `info`, readable directory
/// `dir` and `count` subagent logs.
pub open spec fn is_summary_of(summary: ConversationSummary, info: SessionInfo, dir: Seq<char>, count: i64) -> bool {
    &&& summary.id == info.id
    &&& summary.title == info.title
    &&& summary.directory matches Some(d) && d@ == dir
    &&& summary.git_branch is None
    &&& summary.version matches Some(v) && v@ == "3"@
    &&& summary.project_id is None
    &&& summary.parent_id is None
    &&& summary.time_created == rfc3339_to_millis(info.timestamp@)
    &&& summary.time_updated == rfc3339_to_millis(info.timestamp@)
    &&& summary.model matches Some(m) && m@ == or_default(info.model, "Unknown"@)
    &&& summary.message_count == info.message_count
    &&& summary.subagent_count == count
    &&& summary.first_problem is None
}

/// The sessions that the files of one directory yield: session logs whose metadata
/// could be read, in order.
pub open spec fn dir_candidates(files: Seq<ScannedFile>, dir: Seq<char>) -> Seq<(SessionInfo, Seq<char>, i64)>
    decreases files.len(),
{
    if files.len() == 0 {
        Seq::empty()
    } else {
        let rest = dir_candidates(files.drop_last(), dir);
        let f = files.last();
        if ends_with(f.file_name@, ".jsonl"@) && f.info is Some {
            rest.push((f.info.unwrap(), dir, f.subagent_count))
        } else {
            rest
        }
    }
}

/// The sessions that all scanned directories yield, directory by directory.
pub open spec fn listing_candidates(dirs: Seq<ScannedDir>, home: Seq<char>, tmp: Seq<char>) -> Seq<(SessionInfo, Seq<char>, i64)>
    decreases dirs.len(),
{
    if dirs.len() == 0 {
        Seq::empty()
    } else {
        listing_candidates(dirs.drop_last(), home, tmp) + dir_candidates(
            dirs.last().files@,
            decoded_dir(dirs.last().dir_name@, home, tmp),
        )
    }
}

/// `u` holds the listing entry of each candidate, in order.
pub open spec fn summaries_of(u: Seq<ConversationSummary>, c: Seq<(SessionInfo, Seq<char>, i64)>) -> bool {
    &&& u.len() == c.len()
    &&& forall|i: int| 0 <= i < u.len() ==> is_summary_of(#[trigger] u[i], c[i].0, c[i].1, c[i].2)
}

/// List the sessions found by scanning the sessions directory, most recent first.
pub fn collect_summaries(dirs: Vec<ScannedDir>, home: &str, tmp: &str) -> (r: Vec<ConversationSummary>)
    ensures
        exists|u: Seq<ConversationSummary>|
            summaries_of(u, listing_candidates(dirs@, home@, tmp@)) && r@ == sorted_by_update(u),
{
    let mut summaries: Vec<ConversationSummary> = Vec::new();
    let ghost all = dirs@;
    for dir in it: dirs.into_iter()
        invariant
            it.seq() == all,
            summaries_of(summaries@, listing_candidates(all.take(it.index() as int), home@, tmp@)),
    {
        let ghost k = it.index() as int;
        assert(dir == all[k]);
        proof {
            assert(all.take(k + 1).drop_last() =~= all.take(k));
        }
        let decoded = decode_session_dir(dir.dir_name.as_str(), home, tmp);
        let ghost before = summaries@;
        let ghost files = dir.files@;
        for file in fit: dir.files.into_iter()
            invariant
                fit.seq() == files,
                decoded@ == decoded_dir(dir.dir_name@, home@, tmp@),
                summaries@.len() >= before.len(),
                summaries@.take(before.len() as int) == before,
                summaries_of(
                    summaries@.skip(before.len() as int),
                    dir_candidates(files.take(fit.index() as int), decoded@),
                ),
        {
            let ghost j = fit.index() as int;
            assert(file == files[j]);
            proof {
                assert(files.take(j + 1).drop_last() =~= files.take(j));
            }
            let ghost prev = summaries@;
            if is_jsonl_file_name(file.file_name.as_str()) {
                match file.info {
                    Some(info) => {
                        let s = summary_from_info(info, decoded.clone(), file.subagent_count);
                        summaries.push(s);
                        proof {
                            assert(summaries@.take(before.len() as int) =~= prev.take(before.len() as int));
                            assert(summaries@.skip(before.len() as int) =~= prev.skip(before.len() as int).push(s));
                        }
                    },
                    None => {},
                }
            }
        }
        proof {
            assert(files.take(files.len() as int) =~= files);
            let c1 = listing_candidates(all.take(k), home@, tmp@);
            let c2 = dir_candidates(files, decoded@);
            assert(listing_candidates(all.take(k + 1), home@, tmp@) == c1 + c2);
            assert(summaries@ =~= before + summaries@.skip(before.len() as int));
            assert forall|i: int| 0 <= i < summaries@.len() implies is_summary_of(#[trigger] summaries@[i], (c1 + c2)[i].0, (c1 + c2)[i].1, (c1 + c2)[i].2) by {
                if i >= before.len() {
                    assert(summaries@[i] == summaries@.skip(before.len() as int)[i - before.len()]);
                } else {
                    assert(summaries@[i] == before[i]);
                }
            }
        }
    }
    proof {
        assert(all.take(all.len() as int) =~= all);
    }
    let ghost u = summaries@;
    let r = sort_by_updated_desc(summaries);
    assert(summaries_of(u, listing_candidates(dirs@, home@, tmp@)) && r@ == sorted_by_update(u));
    r
}


// ── Reading a session's metadata ───────────────────────────────────

/// The index of the first line feed in `s`, or its length when it has none.
pub open spec fn newline_index(s: Seq<char>) -> int
    decreases s.len(),
{
    if s.len() == 0 {
        0
    } else if s[0] == '\n' {
        0
    } else {
        1 + newline_index(s.drop_first())
    }
}

/// The first line feed lies within the text.
pub proof fn lemma_newline_index_bounds(s: Seq<char>)
    ensures
        0 <= newline_index(s) <= s.len(),
    decreases s.len(),
{
    if s.len() > 0 && s[0] != '\n' {
        lemma_newline_index_bounds(s.drop_first());
    }
}

/// A line without its trailing carriage return.
pub open spec fn strip_cr(l: Seq<char>) -> Seq<char> {
    if l.len() > 0 && l.last() == '\r' {
        l.drop_last()
    } else {
        l
    }
}

/// `str::lines`: split at line feeds, dropping a carriage return before a line feed;
/// the final line ending is optional and yields no empty last line.
pub open spec fn lines_of(s: Seq<char>) -> Seq<Seq<char>>
    decreases s.len(),
{
    if s.len() == 0 {
        Seq::empty()
    } else {
        let i = newline_index(s);
        proof {
            lemma_newline_index_bounds(s);
        }
        if i >= s.len() {
            seq![s]
        } else {
            seq![strip_cr(s.take(i))] + lines_of(s.skip(i + 1))
        }
    }
}

proof fn lemma_lines_count(s: Seq<char>)
    ensures
        lines_of(s).len() <= s.len(),
    decreases s.len(),
{
    if s.len() > 0 {
        lemma_newline_index_bounds(s);
        let i = newline_index(s);
        if i < s.len() {
            lemma_lines_count(s.skip(i + 1));
        }
    }
}

proof fn lemma_newline_index(s: Seq<char>, k: int)
    requires
        0 <= k <= s.len(),
        forall|m: int| 0 <= m < k ==> s[m] != '\n',
        k < s.len() ==> s[k] == '\n',
    ensures
        newline_index(s) == k,
    decreases k,
{
    if k > 0 {
        lemma_newline_index(s.drop_first(), k - 1);
    }
}

/// The lines of a text, as `str::lines` splits them.
pub fn split_lines(text: &str) -> (r: Vec<String>)
    ensures
        r@.map_values(|l: String| l@) == lines_of(text@),
{
    let cs = chars_of(text);
    let mut out: Vec<String> = Vec::new();
    let mut start: usize = 0;
    let mut j: usize = 0;
    assert(text@.skip(0) =~= text@);
    while j < cs.len()
        invariant
            cs@ == text@,
            start <= j <= cs@.len(),
            forall|m: int| start <= m < j ==> cs@[m] != '\n',
            lines_of(text@) == out@.map_values(|l: String| l@) + lines_of(text@.skip(start as int)),
        decreases cs.len() - j,
    {
        if cs[j] == '\n' {
            let ghost rest = text@.skip(start as int);
            proof {
                lemma_newline_index(rest, j - start);
                assert(rest.take(j - start) =~= text@.subrange(start as int, j as int));
                assert(rest.skip(j - start + 1) =~= text@.skip(j + 1));
            }
            let end: usize = if j > start && cs[j - 1] == '\r' { j - 1 } else { j };
            let line = string_of_range(cs.as_slice(), start, end);
            proof {
                assert(line@ =~= strip_cr(rest.take(j - start)));
            }
            let ghost before = out@;
            out.push(line);
            proof {
                assert(out@.map_values(|l: String| l@) =~= before.map_values(|l: String| l@).push(line@));
                assert(seq![line@] + lines_of(text@.skip(j + 1)) == lines_of(rest));
            }
            start = j + 1;
        }
        j = j + 1;
    }
    if start < cs.len() {
        let ghost rest = text@.skip(start as int);
        proof {
            lemma_newline_index(rest, rest.len() as int);
            assert(rest.len() > 0);
        }
        let line = string_of_range(cs.as_slice(), start, cs.len());
        let ghost before = out@;
        out.push(line);
        proof {
            assert(line@ =~= rest);
            assert(out@.map_values(|l: String| l@) =~= before.map_values(|l: String| l@).push(line@));
        }
    } else {
        proof {
            assert(text@.skip(start as int).len() == 0);
        }
    }
    assert(out@.map_values(|l: String| l@) =~= lines_of(text@));
    out
}

/// The number of lines that are not blank.
pub open spec fn count_non_blank(lines: Seq<Seq<char>>) -> nat
    decreases lines.len(),
{
    if lines.len() == 0 {
        0
    } else {
        count_non_blank(lines.drop_last()) + if is_blank(lines.last()) { 0nat } else { 1nat }
    }
}

/// The members of a line, when it is a JSON object whose `type` is `session`.
pub open spec fn session_members(line: Seq<char>) -> Option<Seq<(Seq<char>, Option<Seq<char>>)>> {
    if is_blank(line) {
        None
    } else {
        match json_object_string_members(line) {
            Some(m) => if member_str(m, "type"@) == Some("session"@) {
                Some(m)
            } else {
                None
            },
            None => None,
        }
    }
}

/// The members of the first session header line.
pub open spec fn first_session_members(lines: Seq<Seq<char>>) -> Option<Seq<(Seq<char>, Option<Seq<char>>)>>
    decreases lines.len(),
{
    if lines.len() == 0 {
        None
    } else if session_members(lines[0]) is Some {
        session_members(lines[0])
    } else {
        first_session_members(lines.drop_first())
    }
}

/// The string value of member `key`, or empty.
pub open spec fn member_or_empty(m: Seq<(Seq<char>, Option<Seq<char>>)>, key: Seq<char>) -> Seq<char> {
    match member_str(m, key) {
        Some(v) => v,
        None => Seq::empty(),
    }
}

/// The session id a text declares: that of its first session header line, or empty.
pub open spec fn declared_id(text: Seq<char>) -> Seq<char> {
    match first_session_members(lines_of(text)) {
        Some(m) => member_or_empty(m, "id"@),
        None => Seq::empty(),
    }
}

/// The members of a line, when it is a JSON object whose `type` is `ty`.
pub open spec fn typed_members(line: Seq<char>, ty: Seq<char>) -> Option<Seq<(Seq<char>, Option<Seq<char>>)>> {
    if is_blank(line) {
        None
    } else {
        match json_object_string_members(line) {
            Some(m) => if member_str(m, "type"@) == Some(ty) {
                Some(m)
            } else {
                None
            },
            None => None,
        }
    }
}

/// The title of the first `title` line that names one, before the first session header
/// line.
pub open spec fn title_before_header(lines: Seq<Seq<char>>) -> Option<Seq<char>>
    decreases lines.len(),
{
    if lines.len() == 0 {
        None
    } else if session_members(lines[0]) is Some {
        None
    } else {
        match typed_members(lines[0], "title"@) {
            Some(m) => match member_str(m, "title"@) {
                Some(t) => Some(t),
                None => title_before_header(lines.drop_first()),
            },
            None => title_before_header(lines.drop_first()),
        }
    }
}

/// The title a session is listed under: its header's, else that of a `title` line
/// before the header.
pub open spec fn listed_title(lines: Seq<Seq<char>>) -> Option<Seq<char>> {
    match first_session_members(lines) {
        Some(m) => match member_str(m, "title"@) {
            Some(t) => Some(t),
            None => title_before_header(lines),
        },
        None => None,
    }
}

/// The model named by the last `model_change` line that names one.
pub open spec fn last_model_line(lines: Seq<Seq<char>>) -> Option<Seq<char>>
    decreases lines.len(),
{
    if lines.len() == 0 {
        None
    } else {
        match typed_members(lines.last(), "model_change"@) {
            Some(m) => match member_str(m, "model"@) {
                Some(x) => Some(x),
                None => last_model_line(lines.drop_last()),
            },
            None => last_model_line(lines.drop_last()),
        }
    }
}

/// The members of a line, when it is a JSON object whose `type` is `ty`.
fn typed_line_members(line: &str, ty: &str) -> (r: Option<Vec<(String, Option<String>)>>)
    ensures
        match r {
            Some(v) => typed_members(line@, ty@) == Some(crate::json::members_view(v@)),
            None => typed_members(line@, ty@) is None,
        },
{
    if str_is_blank(line) {
        return None;
    }
    match json_object_members(line) {
        Some(members) => {
            let t = lookup_member(&members, "type");
            let ok = match &t {
                Some(x) => str_eq(x.as_str(), ty),
                None => false,
            };
            if ok {
                Some(members)
            } else {
                None
            }
        },
        None => None,
    }
}

fn title_line_before_header(lines: &Vec<String>) -> (r: Option<String>)
    ensures
        opt_view(r) == title_before_header(lines@.map_values(|l: String| l@)),
{
    let ghost lv = lines@.map_values(|l: String| l@);
    let mut i: usize = 0;
    assert(lv.skip(0) =~= lv);
    while i < lines.len()
        invariant
            lv == lines@.map_values(|l: String| l@),
            i <= lines@.len(),
            title_before_header(lv) == title_before_header(lv.skip(i as int)),
        decreases lines.len() - i,
    {
        let line = lines[i].as_str();
        proof {
            assert(lv.skip(i as int)[0] == line@);
            assert(lv.skip(i as int).drop_first() =~= lv.skip(i + 1));
            reveal_strlit("session");
        }
        let header = typed_line_members(line, "session");
        assert(session_members(line@) == typed_members(line@, "session"@));
        if header.is_some() {
            return None;
        }
        match typed_line_members(line, "title") {
            Some(m) => match lookup_member(&m, "title") {
                Some(t) => {
                    return Some(t);
                },
                None => {},
            },
            None => {},
        }
        i = i + 1;
    }
    assert(lv.skip(i as int).len() == 0);
    None
}

fn model_line(lines: &Vec<String>) -> (r: Option<String>)
    ensures
        opt_view(r) == last_model_line(lines@.map_values(|l: String| l@)),
{
    let ghost lv = lines@.map_values(|l: String| l@);
    let mut k: usize = lines.len();
    assert(lv.take(lv.len() as int) =~= lv);
    while k > 0
        invariant
            lv == lines@.map_values(|l: String| l@),
            k <= lines@.len(),
            last_model_line(lv) == last_model_line(lv.take(k as int)),
        decreases k,
    {
        let line = lines[k - 1].as_str();
        proof {
            assert(lv.take(k as int).last() == line@);
            assert(lv.take(k as int).drop_last() =~= lv.take(k - 1));
        }
        match typed_line_members(line, "model_change") {
            Some(m) => match lookup_member(&m, "model") {
                Some(x) => {
                    return Some(x);
                },
                None => {},
            },
            None => {},
        }
        k = k - 1;
    }
    None
}

proof fn lemma_first_session_members_append(a: Seq<Seq<char>>, b: Seq<Seq<char>>)
    ensures
        first_session_members(a + b) == match first_session_members(a) {
            Some(m) => Some(m),
            None => first_session_members(b),
        },
    decreases a.len(),
{
    if a.len() > 0 {
        assert((a + b).drop_first() =~= a.drop_first() + b);
        lemma_first_session_members_append(a.drop_first(), b);
    } else {
        assert(a + b =~= b);
    }
}

proof fn lemma_first_session_members_single(l: Seq<char>)
    ensures
        first_session_members(seq![l]) == session_members(l),
{
    assert(seq![l].drop_first() =~= Seq::<Seq<char>>::empty());
    assert(seq![l][0] == l);
    assert(first_session_members(Seq::<Seq<char>>::empty()) is None);
}

/// Read the metadata of a session from the text of its log: id, title, working
/// directory and timestamp from the first session header line, and the number of
/// non-blank lines besides the header. Refused when no header names an id.
pub fn session_metadata_from_content(text: &str, file_path: String, jsonl_file: String) -> (r: Result<SessionInfo, String>)
    requires
        text@.len() <= i64::MAX,
    ensures
        match r {
            Ok(info) => {
                &&& header_fields(
                    first_session_members(lines_of(text@)),
                    info.id@,
                    info.cwd@,
                    info.timestamp@,
                )
                &&& opt_view(info.title) == listed_title(lines_of(text@))
                &&& opt_view(info.model) == last_model_line(lines_of(text@))
                &&& info.id@.len() > 0
                &&& info.file_path == file_path
                &&& info.jsonl_file == jsonl_file
                &&& info.message_count == if count_non_blank(lines_of(text@)) == 0 {
                    0
                } else {
                    count_non_blank(lines_of(text@)) - 1
                }
                &&& info.subagent_count == 0
            },
            Err(e) => declared_id(text@).len() == 0 && e@ == "No session header found"@,
        },
{
    let lines = split_lines(text);
    let ghost lv = lines@.map_values(|l: String| l@);
    let mut id = String::new();
    let mut title: Option<String> = None;
    let mut cwd = String::new();
    let mut timestamp = String::new();
    let mut found = false;
    let mut i: usize = 0;
    while i < lines.len()
        invariant_except_break
            !found,
            first_session_members(lv.take(i as int)) is None,
            id@.len() == 0,
        invariant
            lv == lines@.map_values(|l: String| l@),
            lv == lines_of(text@),
            i <= lines@.len(),
        ensures
            found ==> header_fields(first_session_members(lv), id@, cwd@, timestamp@),
            found ==> match first_session_members(lv) {
                Some(m) => opt_view(title) == member_str(m, "title"@),
                None => false,
            },
            !found ==> i == lines@.len(),
            !found ==> first_session_members(lv.take(i as int)) is None,
            !found ==> id@.len() == 0,
        decreases lines.len() - i,
    {
        let line = lines[i].as_str();
        proof {
            assert(lv[i as int] == line@);
            assert(lv.take(i + 1) =~= lv.take(i as int) + seq![line@]);
            lemma_first_session_members_append(lv.take(i as int), seq![line@]);
            lemma_first_session_members_single(line@);
        }
        if !str_is_blank(line) {
            match json_object_members(line) {
                Some(members) => {
                    let ty = lookup_member(&members, "type");
                    let is_session = match &ty {
                        Some(t) => str_eq(t.as_str(), "session"),
                        None => false,
                    };
                    if is_session {
                        id = match lookup_member(&members, "id") { Some(v) => v, None => String::new() };
                        title = lookup_member(&members, "title");
                        cwd = match lookup_member(&members, "cwd") { Some(v) => v, None => String::new() };
                        timestamp = match lookup_member(&members, "timestamp") { Some(v) => v, None => String::new() };
                        found = true;
                        proof {
                            let mv = crate::json::members_view(members@);
                            assert(json_object_string_members(line@) == Some(mv));
                            assert(member_str(mv, "type"@) == Some("session"@));
                            assert(session_members(line@) == Some(mv));
                            assert(first_session_members(lv.take(i + 1)) == Some(mv));
                            assert(lv =~= lv.take(i + 1) + lv.skip(i + 1));
                            lemma_first_session_members_append(lv.take(i + 1), lv.skip(i + 1));
                        }
                        break;
                    }
                },
                None => {},
            }
        }
        i = i + 1;
    }
    if !found {
        proof {
            assert(lv.take(lines@.len() as int) =~= lv);
        }
    }
    if id.as_str().is_empty() {
        return Err(String::from_str("No session header found"));
    }
    let count = count_non_blank_lines(&lines);
    proof {
        lemma_lines_count(text@);
    }
    let message_count: i64 = if count == 0 { 0 } else { count as i64 - 1 };
    let title = match title {
        Some(t) => Some(t),
        None => title_line_before_header(&lines),
    };
    let model = model_line(&lines);
    Ok(SessionInfo { id, title, cwd, timestamp, file_path, jsonl_file, message_count, subagent_count: 0, model })
}

/// The header members give these id, working directory and timestamp.
pub open spec fn header_fields(
    members: Option<Seq<(Seq<char>, Option<Seq<char>>)>>,
    id: Seq<char>,
    cwd: Seq<char>,
    timestamp: Seq<char>,
) -> bool {
    match members {
        Some(m) => {
            &&& id == member_or_empty(m, "id"@)
            &&& cwd == member_or_empty(m, "cwd"@)
            &&& timestamp == member_or_empty(m, "timestamp"@)
        },
        None => false,
    }
}

fn count_non_blank_lines(lines: &Vec<String>) -> (r: usize)
    ensures
        r == count_non_blank(lines@.map_values(|l: String| l@)),
        r <= lines@.len(),
{
    let ghost lv = lines@.map_values(|l: String| l@);
    let mut n: usize = 0;
    let mut i: usize = 0;
    while i < lines.len()
        invariant
            lv == lines@.map_values(|l: String| l@),
            i <= lines@.len(),
            n <= i,
            n == count_non_blank(lv.take(i as int)),
        decreases lines.len() - i,
    {
        proof {
            assert(lv.take(i + 1).drop_last() =~= lv.take(i as int));
        }
        if !str_is_blank(lines[i].as_str()) {
            n = n + 1;
        }
        i = i + 1;
    }
    assert(lv.take(lines@.len() as int) =~= lv);
    n
}


// ── Filtering the listing ──────────────────────────────────────────

/// An optional text, lowercased, contains `needle`.
pub open spec fn opt_lower_contains(o: Option<String>, needle: Seq<char>) -> bool {
    match o {
        Some(t) => contains(lowercase(t@), needle),
        None => false,
    }
}

/// Whether a session is kept by the query `q` (matched, ignoring case, within its id,
/// title or directory) and the directory prefix `dir` (ignoring case); an empty `q`
/// or `dir` keeps every session.
pub open spec fn session_selected(s: ConversationSummary, q: Seq<char>, dir: Seq<char>) -> bool {
    let ql = lowercase(q);
    let dl = lowercase(dir);
    let matches_q = q.len() == 0 || contains(lowercase(s.id@), ql) || opt_lower_contains(s.title, ql)
        || opt_lower_contains(s.directory, ql);
    let matches_dir = dir.len() == 0 || match s.directory {
        Some(d) => starts_with(lowercase(d@), dl),
        None => false,
    };
    matches_q && matches_dir
}

/// The sessions kept by a query and a directory prefix, in order.
pub open spec fn selected_sessions(s: Seq<ConversationSummary>, q: Seq<char>, dir: Seq<char>) -> Seq<ConversationSummary>
    decreases s.len(),
{
    if s.len() == 0 {
        s
    } else {
        let rest = selected_sessions(s.drop_last(), q, dir);
        if session_selected(s.last(), q, dir) {
            rest.push(s.last())
        } else {
            rest
        }
    }
}

fn opt_lower_contains_exec(o: &Option<String>, needle: &[char]) -> (r: bool)
    ensures
        r == opt_lower_contains(*o, needle@),
{
    match o {
        Some(t) => {
            let l = to_lowercase(t.as_str());
            let lc = chars_of(l.as_str());
            contains_chars(lc.as_slice(), needle)
        },
        None => false,
    }
}

/// Filter sessions by query string (matches title, id, or directory) and directory prefix.
pub fn filter_sessions(sessions: &[ConversationSummary], q: &str, directory: &str) -> (r: Vec<ConversationSummary>)
    ensures
        r@ == selected_sessions(sessions@, q@, directory@),
{
    let q_lower = to_lowercase(q);
    let dir_lower = to_lowercase(directory);
    let qc = chars_of(q_lower.as_str());
    let dc = chars_of(dir_lower.as_str());
    let q_empty = q.is_empty();
    let dir_empty = directory.is_empty();
    let mut out: Vec<ConversationSummary> = Vec::new();
    let mut i: usize = 0;
    while i < sessions.len()
        invariant
            i <= sessions@.len(),
            qc@ == lowercase(q@),
            dc@ == lowercase(directory@),
            q_empty == (q@.len() == 0),
            dir_empty == (directory@.len() == 0),
            out@ == selected_sessions(sessions@.take(i as int), q@, directory@),
        decreases sessions.len() - i,
    {
        proof {
            assert(sessions@.take(i + 1).drop_last() =~= sessions@.take(i as int));
        }
        let s = &sessions[i];
        let matches_q = if q_empty {
            true
        } else {
            let id_lower = to_lowercase(s.id.as_str());
            let idc = chars_of(id_lower.as_str());
            contains_chars(idc.as_slice(), qc.as_slice()) || opt_lower_contains_exec(&s.title, qc.as_slice())
                || opt_lower_contains_exec(&s.directory, qc.as_slice())
        };
        let matches_dir = if dir_empty {
            true
        } else {
            match &s.directory {
                Some(d) => {
                    let l = to_lowercase(d.as_str());
                    let lc = chars_of(l.as_str());
                    starts_with_chars(lc.as_slice(), dc.as_slice())
                },
                None => false,
            }
        };
        if matches_q && matches_dir {
            out.push(copy_summary(s));
        }
        i = i + 1;
    }
    assert(sessions@.take(sessions@.len() as int) =~= sessions@);
    out
}


/// With no query and no directory, the filter keeps every session, in order.
pub proof fn lemma_filter_without_criteria_keeps_all(s: Seq<ConversationSummary>)
    ensures
        selected_sessions(s, Seq::empty(), Seq::empty()) == s,
    decreases s.len(),
{
    if s.len() > 0 {
        lemma_filter_without_criteria_keeps_all(s.drop_last());
        assert(s.drop_last().push(s.last()) =~= s);
    }
}

/// Every session the filter keeps matches the criteria and was in the listing, and the
/// filter keeps no more sessions than it was given.
pub proof fn lemma_filter_keeps_matching_sessions(s: Seq<ConversationSummary>, q: Seq<char>, dir: Seq<char>)
    ensures
        selected_sessions(s, q, dir).len() <= s.len(),
        forall|i: int|
            0 <= i < selected_sessions(s, q, dir).len() ==> session_selected(#[trigger] selected_sessions(s, q, dir)[i], q, dir)
                && s.contains(selected_sessions(s, q, dir)[i]),
    decreases s.len(),
{
    if s.len() > 0 {
        let prev = s.drop_last();
        lemma_filter_keeps_matching_sessions(prev, q, dir);
        assert forall|i: int| 0 <= i < selected_sessions(s, q, dir).len() implies session_selected(
            #[trigger] selected_sessions(s, q, dir)[i],
            q,
            dir,
        ) && s.contains(selected_sessions(s, q, dir)[i]) by {
            let x = selected_sessions(s, q, dir)[i];
            if i < selected_sessions(prev, q, dir).len() {
                assert(x == selected_sessions(prev, q, dir)[i]);
                let w = choose|w: int| 0 <= w < prev.len() && prev[w] == x;
                assert(s[w] == x);
            } else {
                assert(x == s.last());
                assert(s[s.len() - 1] == x);
            }
        }
    }
}

/// Filtering a filtered listing again with the same criteria changes nothing.
pub proof fn lemma_filter_idempotent(s: Seq<ConversationSummary>, q: Seq<char>, dir: Seq<char>)
    ensures
        selected_sessions(selected_sessions(s, q, dir), q, dir) == selected_sessions(s, q, dir),
    decreases s.len(),
{
    if s.len() > 0 {
        let prev = s.drop_last();
        lemma_filter_idempotent(prev, q, dir);
        let t = selected_sessions(prev, q, dir);
        if session_selected(s.last(), q, dir) {
            assert(t.push(s.last()).drop_last() =~= t);
        }
    }
}

proof fn lemma_selected_members(s: Seq<ConversationSummary>, q: Seq<char>, dir: Seq<char>, x: ConversationSummary)
    ensures
        selected_sessions(s, q, dir).contains(x) <==> (s.contains(x) && session_selected(x, q, dir)),
    decreases s.len(),
{
    if s.len() > 0 {
        let prev = s.drop_last();
        let rest = selected_sessions(prev, q, dir);
        lemma_selected_members(prev, q, dir, x);
        if s.contains(x) && session_selected(x, q, dir) {
            let w = choose|w: int| 0 <= w < s.len() && s[w] == x;
            if w == s.len() - 1 {
                assert(selected_sessions(s, q, dir)[rest.len() as int] == x);
            } else {
                assert(prev[w] == x);
                let v = choose|v: int| 0 <= v < rest.len() && rest[v] == x;
                if session_selected(s.last(), q, dir) {
                    assert(selected_sessions(s, q, dir)[v] == x);
                }
            }
        }
        if selected_sessions(s, q, dir).contains(x) {
            let v = choose|v: int| 0 <= v < selected_sessions(s, q, dir).len() && selected_sessions(s, q, dir)[v] == x;
            if v < rest.len() {
                assert(rest[v] == x);
                let w = choose|w: int| 0 <= w < prev.len() && prev[w] == x;
                assert(s[w] == x);
            } else {
                assert(x == s.last());
                assert(s[s.len() - 1] == x);
            }
        }
    }
}

/// The filter keeps a session exactly when it is in the listing, the query is empty or
/// the session's id, title or directory contains it (all lowercased), and the directory
/// prefix is empty or the session's lowercased directory begins with the lowercased
/// prefix.
pub proof fn lemma_filter_keeps_exactly_the_matches(
    s: Seq<ConversationSummary>,
    q: Seq<char>,
    dir: Seq<char>,
    x: ConversationSummary,
)
    ensures
        selected_sessions(s, q, dir).contains(x) <==> {
            &&& s.contains(x)
            &&& q.len() == 0 || contains(lowercase(x.id@), lowercase(q)) || (x.title is Some && contains(
                lowercase(x.title->0@),
                lowercase(q),
            )) || (x.directory is Some && contains(lowercase(x.directory->0@), lowercase(q)))
            &&& dir.len() == 0 || (x.directory is Some && starts_with(lowercase(x.directory->0@), lowercase(dir)))
        },
{
    lemma_selected_members(s, q, dir, x);
}

/// The filter keeps every copy of a session that meets the criteria of
/// `lemma_filter_keeps_exactly_the_matches` and no copy of one that does not: a session
/// occurs in the result as often as in the listing, or not at all.
proof fn lemma_selected_count(s: Seq<ConversationSummary>, q: Seq<char>, dir: Seq<char>, x: ConversationSummary)
    ensures
        selected_sessions(s, q, dir).to_multiset().count(x) == (if session_selected(x, q, dir) {
            s.to_multiset().count(x)
        } else {
            0
        }),
    decreases s.len(),
{
    broadcast use vstd::seq_lib::to_multiset_build;
    if s.len() == 0 {
        vstd::seq_lib::to_multiset_contains(s, x);
    } else {
        let prev = s.drop_last();
        lemma_selected_count(prev, q, dir, x);
        assert(s =~= prev.push(s.last()));
        assert(s.to_multiset() == prev.to_multiset().insert(s.last()));
        let rest = selected_sessions(prev, q, dir);
        if session_selected(s.last(), q, dir) {
            assert(selected_sessions(s, q, dir).to_multiset() == rest.to_multiset().insert(s.last()));
        } else {
            assert(selected_sessions(s, q, dir) == rest);
        }
    }
}

/// The filter keeps every copy of a session that meets the criteria of
/// `lemma_filter_keeps_exactly_the_matches` and no copy of one that does not: a session
/// occurs in the result as often as in the listing, or not at all.
pub proof fn lemma_filter_keeps_each_match_once(
    s: Seq<ConversationSummary>,
    q: Seq<char>,
    dir: Seq<char>,
    x: ConversationSummary,
)
    ensures
        selected_sessions(s, q, dir).to_multiset().count(x) == (if {
            &&& q.len() == 0 || contains(lowercase(x.id@), lowercase(q)) || (x.title is Some && contains(
                lowercase(x.title->0@),
                lowercase(q),
            )) || (x.directory is Some && contains(lowercase(x.directory->0@), lowercase(q)))
            &&& dir.len() == 0 || (x.directory is Some && starts_with(lowercase(x.directory->0@), lowercase(dir)))
        } {
            s.to_multiset().count(x)
        } else {
            0
        }),
{
    lemma_selected_count(s, q, dir, x);
}

} // verus!

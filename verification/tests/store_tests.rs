use omp_visualizer::models::ConversationSummary;
use omp_visualizer::session::store;
use omp_visualizer::session::store::ScannedDir;
use omp_visualizer::session::store::ScannedFile;
use omp_visualizer::session::store::SessionInfo;

fn summary(id: &str, title: Option<&str>, dir: Option<&str>, updated: Option<i64>) -> ConversationSummary {
    ConversationSummary {
        id: id.to_string(),
        title: title.map(|t| t.to_string()),
        directory: dir.map(|d| d.to_string()),
        git_branch: None,
        version: Some("3".to_string()),
        project_id: None,
        parent_id: None,
        time_created: updated,
        time_updated: updated,
        model: Some("Unknown".to_string()),
        message_count: 0,
        subagent_count: 0,
        first_problem: None,
    }
}

fn info(id: &str, timestamp: &str) -> SessionInfo {
    SessionInfo {
        id: id.to_string(),
        title: Some(format!("Title {}", id)),
        cwd: "/w".to_string(),
        timestamp: timestamp.to_string(),
        file_path: format!("/s/d/{}.jsonl", id),
        jsonl_file: format!("d/{}.jsonl", id),
        message_count: 4,
        subagent_count: 0,
        model: None,
    }
}

#[test]
fn default_sessions_dir_under_home() {
    assert_eq!(store::default_sessions_dir(Some("/home/u".to_string())), "/home/u/.omp/agent/sessions");
    assert_eq!(store::default_sessions_dir(Some("/home/u/".to_string())), "/home/u/.omp/agent/sessions");
    assert_eq!(store::default_sessions_dir(None), "/tmp/.omp/agent/sessions");
    assert_eq!(store::dirs_fallback(None), "/tmp");
}

#[test]
fn join_path_like_pathbuf() {
    assert_eq!(store::join_path("/a", "b"), "/a/b");
    assert_eq!(store::join_path("/a/", "b"), "/a/b");
    assert_eq!(store::join_path("/a", "/etc"), "/etc");
    assert_eq!(store::join_path("", "b"), "b");
}

#[test]
fn decode_session_dir_forms() {
    assert_eq!(store::decode_session_dir("-", "/home/u", "/tmp"), "/home/u");
    assert_eq!(store::decode_session_dir("-tmp-build-x", "/home/u", "/var/tmp"), "/var/tmp/build/x");
    assert_eq!(store::decode_session_dir("-code-proj", "/home/u", "/tmp"), "/home/u/code/proj");
    assert_eq!(store::decode_session_dir("--a-b--", "/home/u", "/tmp"), "/a/b");
    assert_eq!(store::decode_session_dir("--", "/home/u", "/tmp"), "/home/u//");
    assert_eq!(store::decode_session_dir("plain", "/home/u", "/tmp"), "plain");
}

#[test]
fn jsonl_names() {
    assert!(store::is_jsonl_file_name("a.jsonl"));
    assert!(store::is_jsonl_file_name(".jsonl"));
    assert!(!store::is_jsonl_file_name("a.json"));
    assert!(store::has_jsonl_extension("a.jsonl"));
    assert!(!store::has_jsonl_extension(".jsonl"));
}

#[test]
fn summary_from_info_fields() {
    let s = store::summary_from_info(info("abc", "2026-01-01T00:00:00Z"), "/home/u/x".to_string(), 2);
    assert_eq!(s.id, "abc");
    assert_eq!(s.title.as_deref(), Some("Title abc"));
    assert_eq!(s.directory.as_deref(), Some("/home/u/x"));
    assert_eq!(s.version.as_deref(), Some("3"));
    assert_eq!(s.model.as_deref(), Some("Unknown"));
    assert_eq!(s.time_created, Some(1767225600000));
    assert_eq!(s.time_updated, Some(1767225600000));
    assert_eq!(s.message_count, 4);
    assert_eq!(s.subagent_count, 2);
    let mut with_model = info("m", "2026-01-01T00:00:00Z");
    with_model.model = Some("gpt-4".to_string());
    assert_eq!(store::summary_from_info(with_model, "/x".to_string(), 0).model.as_deref(), Some("gpt-4"));
}

#[test]
fn sort_newest_first_and_stable() {
    let sorted = store::sort_by_updated_desc(vec![
        summary("a", None, None, Some(10)),
        summary("b", None, None, None),
        summary("c", None, None, Some(30)),
        summary("d", None, None, Some(10)),
    ]);
    let ids: Vec<&str> = sorted.iter().map(|s| s.id.as_str()).collect();
    assert_eq!(ids, vec!["c", "a", "d", "b"]);
}

#[test]
fn collect_summaries_lists_sessions_newest_first() {
    let dirs = vec![
        ScannedDir {
            dir_name: "-proj".to_string(),
            files: vec![
                ScannedFile { file_name: "old.jsonl".to_string(), info: Some(info("old", "2025-01-01T00:00:00Z")), subagent_count: 1 },
                ScannedFile { file_name: "notes.txt".to_string(), info: Some(info("txt", "2027-01-01T00:00:00Z")), subagent_count: 0 },
                ScannedFile { file_name: "broken.jsonl".to_string(), info: None, subagent_count: 0 },
            ],
        },
        ScannedDir {
            dir_name: "-tmp-x".to_string(),
            files: vec![ScannedFile { file_name: "new.jsonl".to_string(), info: Some(info("new", "2026-01-01T00:00:00Z")), subagent_count: 0 }],
        },
    ];
    let list = store::collect_summaries(dirs, "/home/u", "/tmp");
    assert_eq!(list.len(), 2);
    assert_eq!(list[0].id, "new");
    assert_eq!(list[0].directory.as_deref(), Some("/tmp/x"));
    assert_eq!(list[1].id, "old");
    assert_eq!(list[1].directory.as_deref(), Some("/home/u/proj"));
    assert_eq!(list[1].subagent_count, 1);
}

#[test]
fn split_lines_like_str_lines() {
    assert_eq!(store::split_lines("a\r\nb\n\nc"), vec!["a", "b", "", "c"]);
    assert_eq!(store::split_lines("a\n"), vec!["a"]);
    assert!(store::split_lines("").is_empty());
}

#[test]
fn metadata_from_content_reads_header() {
    let text = "{\"type\":\"title\",\"title\":\"Early title\"}\n\
{\"type\":\"session\",\"id\":\"s-1\",\"cwd\":\"/w\",\"timestamp\":\"2026-01-01T00:00:00Z\",\"title\":\"Header title\"}\n\
\n\
{\"type\":\"message\",\"id\":\"m1\"}\n\
not json\n";
    let meta = store::session_metadata_from_content(text, "/s/d/s-1.jsonl".to_string(), "d/s-1.jsonl".to_string()).unwrap();
    assert_eq!(meta.id, "s-1");
    assert_eq!(meta.title.as_deref(), Some("Header title"));
    assert_eq!(meta.cwd, "/w");
    assert_eq!(meta.timestamp, "2026-01-01T00:00:00Z");
    assert_eq!(meta.message_count, 3);
    assert_eq!(meta.jsonl_file, "d/s-1.jsonl");
}

#[test]
fn metadata_without_header_is_refused() {
    let err = store::session_metadata_from_content("{\"type\":\"title\",\"title\":\"x\"}\n", "f".to_string(), "f".to_string());
    assert_eq!(err.err().unwrap(), "No session header found");
    let empty_id = store::session_metadata_from_content("{\"type\":\"session\",\"id\":\"\"}", "f".to_string(), "f".to_string());
    assert!(empty_id.is_err());
}

#[test]
fn filter_by_query_and_directory() {
    let sessions = vec![
        summary("abc", Some("Fix Parser"), Some("/home/u/Proj"), Some(1)),
        summary("def", Some("Other"), Some("/srv/app"), Some(2)),
        summary("ghi", None, None, Some(3)),
    ];
    let by_title = store::filter_sessions(&sessions, "PARSER", "");
    assert_eq!(by_title.len(), 1);
    assert_eq!(by_title[0].id, "abc");

    let by_id = store::filter_sessions(&sessions, "gh", "");
    assert_eq!(by_id.len(), 1);
    assert_eq!(by_id[0].id, "ghi");

    let by_dir = store::filter_sessions(&sessions, "", "/HOME");
    assert_eq!(by_dir.len(), 1);
    assert_eq!(by_dir[0].id, "abc");

    let both = store::filter_sessions(&sessions, "other", "/home");
    assert!(both.is_empty());
}

#[test]
fn filter_without_criteria_keeps_all() {
    let sessions = vec![summary("x", None, None, None), summary("y", Some("t"), Some("/d"), Some(5))];
    let all = store::filter_sessions(&sessions, "", "");
    let ids: Vec<&str> = all.iter().map(|s| s.id.as_str()).collect();
    assert_eq!(ids, vec!["x", "y"]);
}

#[test]
fn filter_twice_changes_nothing() {
    let sessions = vec![
        summary("abc", Some("Fix Parser"), Some("/home/u/Proj"), Some(1)),
        summary("def", Some("parse more"), Some("/home/v"), Some(2)),
        summary("ghi", None, None, Some(3)),
    ];
    let once = store::filter_sessions(&sessions, "pars", "/home");
    let twice = store::filter_sessions(&once, "pars", "/home");
    let a: Vec<&str> = once.iter().map(|s| s.id.as_str()).collect();
    let b: Vec<&str> = twice.iter().map(|s| s.id.as_str()).collect();
    assert_eq!(a, vec!["abc", "def"]);
    assert_eq!(a, b);
}

#[test]
fn subagent_logs_are_counted_by_extension() {
    let names = vec![
        "task.jsonl".to_string(),
        ".jsonl".to_string(),
        "notes.txt".to_string(),
        "review.jsonl".to_string(),
    ];
    assert_eq!(store::count_subagent_logs(&names), 2);
    assert_eq!(store::count_subagent_logs(&[]), 0);
}

#[test]
fn metadata_title_from_earlier_title_line() {
    let text = "{\"type\":\"title\",\"title\":\"My Title\"}\n{\"type\":\"session\",\"id\":\"s1\",\"timestamp\":\"2026-01-01T00:00:00Z\",\"cwd\":\"/w\"}\n";
    let meta = store::session_metadata_from_content(text, "f".to_string(), "f".to_string()).unwrap();
    assert_eq!(meta.id, "s1");
    assert_eq!(meta.cwd, "/w");
    assert_eq!(meta.title.as_deref(), Some("My Title"));
    assert_eq!(meta.message_count, 1);
    assert_eq!(meta.model, None);
}

#[test]
fn metadata_model_from_last_model_change() {
    let text = "{\"type\":\"session\",\"id\":\"s1\"}\n{\"type\":\"model_change\",\"model\":\"a\"}\n{\"type\":\"model_change\",\"model\":\"b\"}\n{\"type\":\"message\"}\n";
    let meta = store::session_metadata_from_content(text, "f".to_string(), "f".to_string()).unwrap();
    assert_eq!(meta.model.as_deref(), Some("b"));
    assert_eq!(meta.title, None);
}

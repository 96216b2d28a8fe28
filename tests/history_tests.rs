use lazynotes::history::{parse_changed_files, parse_commit_line, parse_log, CommitInfo, GitSection};

fn commit(hash: &str, files: &[&str]) -> CommitInfo {
    CommitInfo {
        hash: hash.to_string(),
        summary: String::new(),
        author: String::new(),
        date: String::new(),
        changed_files: files.iter().map(|f| f.to_string()).collect(),
    }
}

#[test]
fn log_line_has_four_fields() {
    let c = parse_commit_line("abc123|Fix it|Ann|2 days ago").unwrap();
    assert_eq!(c.hash, "abc123");
    assert_eq!(c.summary, "Fix it");
    assert_eq!(c.author, "Ann");
    assert_eq!(c.date, "2 days ago");
    assert!(c.changed_files.is_empty());
}

#[test]
fn date_keeps_extra_bars() {
    let c = parse_commit_line("h|s|a|d|e\r").unwrap();
    assert_eq!(c.date, "d|e");
}

#[test]
fn short_lines_are_no_commits() {
    assert!(parse_commit_line("h|s|a").is_none());
    assert!(parse_commit_line("").is_none());
}

#[test]
fn log_reads_every_commit_line() {
    let commits = parse_log("a1|one|Ann|now\nbad line\nb2|two|Bob|then\n");
    assert_eq!(commits.len(), 2);
    assert_eq!(commits[0].hash, "a1");
    assert_eq!(commits[1].summary, "two");
    assert!(parse_log("").is_empty());
}

#[test]
fn changed_files_skip_empty_lines() {
    assert_eq!(parse_changed_files("a.md\n\nsub/b.md\r\n"), vec!["a.md", "sub/b.md"]);
    assert!(parse_changed_files("").is_empty());
}

#[test]
fn history_selection_clamps() {
    let mut g = GitSection::new_for(Some("notes".to_string()), vec![commit("1", &["x"]), commit("2", &["y", "z"])]);
    assert_eq!(g.selected, 0);
    g.select_prev();
    assert_eq!(g.selected, 0);
    g.select_next();
    assert_eq!(g.selected, 1);
    assert_eq!(g.selected_changed_files(), vec!["y", "z"]);
    g.select_next();
    assert_eq!(g.selected, 1);
    g.select_first();
    assert_eq!(g.selected, 0);
    g.select_last();
    assert_eq!(g.selected, 1);
    g.refresh(vec![commit("3", &[])]);
    assert_eq!(g.selected, 0);
    assert_eq!(g.commits.len(), 1);
    assert_eq!(g.path.as_deref(), Some("notes"));
}

#[test]
fn empty_history_has_no_files() {
    let mut g = GitSection::new_for(None, Vec::new());
    g.select_next();
    g.select_last();
    assert_eq!(g.selected, 0);
    assert!(g.selected_changed_files().is_empty());
}

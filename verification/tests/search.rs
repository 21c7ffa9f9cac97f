use pwsh_history_server::api::{search_limit, SearchQuery};
use pwsh_history_server::like::escape_like;
use pwsh_history_server::store::{add_plan, create_table, migrations, search_plan};

#[test]
fn escape_like_escapes_sqlite_wildcards() {
    assert_eq!(escape_like(r"git_%\branch"), r"git\_\%\\branch");
}

#[test]
fn escape_like_leaves_other_text_alone() {
    assert_eq!(escape_like(""), "");
    assert_eq!(escape_like("git status 'ä'*?"), "git status 'ä'*?");
}

/// Whether `text LIKE pattern ESCAPE '\'` holds.
fn like(pattern: &[char], text: &[char]) -> bool {
    match pattern {
        [] => text.is_empty(),
        ['%', rest @ ..] => (0..=text.len()).any(|n| like(rest, &text[n..])),
        ['\\', c, rest @ ..] => {
            !text.is_empty() && text[0].eq_ignore_ascii_case(c) && like(rest, &text[1..])
        }
        ['\\'] => false,
        ['_', rest @ ..] => !text.is_empty() && like(rest, &text[1..]),
        [c, rest @ ..] => {
            !text.is_empty() && text[0].eq_ignore_ascii_case(c) && like(rest, &text[1..])
        }
    }
}

fn found(prefix: &str, command: &str) -> bool {
    let plan = search_plan(&SearchQuery {
        prefix: prefix.to_string(),
        limit: None,
        cwd: None,
    });
    let pattern: Vec<char> = plan.pattern.chars().collect();
    let text: Vec<char> = command.chars().collect();
    like(&pattern, &text)
}

#[test]
fn pattern_matches_exactly_the_prefix() {
    assert!(found("", ""));
    assert!(found("", "git status"));
    assert!(found("git", "git status"));
    assert!(found("GIT S", "git status"));
    assert!(found("100%", "100%_done"));
    assert!(!found("100%", "1000 done"));
    assert!(!found("a_b", "axb"));
    assert!(found(r"C:\x", r"C:\x\y"));
    assert!(!found("git statuses", "git status"));
    assert!(!found("tatus", "git status"));
}

#[test]
fn command_is_found_by_each_beginning() {
    let command = r"echo 50%_\ done";
    for n in 0..=command.len() {
        assert!(found(&command[..n], command));
    }
}

#[test]
fn search_limit_defaults_and_is_clamped() {
    assert_eq!(search_limit(None), 100);
    assert_eq!(search_limit(Some(1)), 1);
    assert_eq!(search_limit(Some(0)), 1);
    assert_eq!(search_limit(Some(i64::MIN)), 1);
    assert_eq!(search_limit(Some(42)), 42);
    assert_eq!(search_limit(Some(500)), 500);
    assert_eq!(search_limit(Some(501)), 500);
    assert_eq!(search_limit(Some(i64::MAX)), 500);
}

#[test]
fn search_plan_holds_statement_and_parameters() {
    let plan = search_plan(&SearchQuery {
        prefix: "git_".to_string(),
        limit: Some(7),
        cwd: Some("/src/x_y".to_string()),
    });
    assert_eq!(
        plan.statement,
        "SELECT id, command, cwd, last_seen_at, use_count\nFROM history\nWHERE command LIKE ?1 ESCAPE '\\'\n    AND (?2 IS NULL OR cwd = ?2)\nORDER BY last_seen_at DESC, id DESC\nLIMIT ?3"
    );
    assert_eq!(plan.pattern, r"git\_%");
    assert_eq!(plan.cwd.as_deref(), Some("/src/x_y"));
    assert_eq!(plan.limit, 7);
}

#[test]
fn add_plan_holds_statement_and_parameters() {
    let plan = add_plan("git status".to_string(), Some("/src".to_string()), 17);
    assert_eq!(
        plan.statement,
        "INSERT INTO history(command, cwd, first_seen_at, last_seen_at, use_count)\nVALUES (?1, ?2, ?3, ?3, 1)\nON CONFLICT(command) DO UPDATE SET\n    cwd = excluded.cwd,\n    last_seen_at = excluded.last_seen_at,\n    use_count = history.use_count + 1"
    );
    assert_eq!(plan.command, "git status");
    assert_eq!(plan.cwd.as_deref(), Some("/src"));
    assert_eq!(plan.now, 17);
    assert!(add_plan("ls".to_string(), None, 1).cwd.is_none());
}

#[test]
fn migrations_create_the_table_first() {
    let first = create_table();
    assert!(first.statement.starts_with("CREATE TABLE IF NOT EXISTS history ("));
    assert!(first.statement.contains("command TEXT NOT NULL UNIQUE"));
    assert!(first.statement.contains("cwd TEXT"));
    assert_eq!(first.failure, "failed to create history table");
    let all = migrations(1);
    assert_eq!(all.len(), 2);
    assert!(all[0].statement.contains("idx_history_command"));
    assert_eq!(all[0].failure, "failed to create command index");
    assert!(all[1].statement.contains("last_seen_at DESC, id DESC"));
    assert_eq!(all[1].failure, "failed to create last_seen index");
}

#[test]
fn migrations_add_a_missing_column() {
    let all = migrations(0);
    assert_eq!(all.len(), 3);
    assert_eq!(all[0].statement, "ALTER TABLE history ADD COLUMN cwd TEXT;");
    assert_eq!(all[0].failure, "failed to add cwd column");
    assert_eq!(all[1].failure, "failed to create command index");
    assert_eq!(all[2].failure, "failed to create last_seen index");
}

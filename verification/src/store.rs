//! What the database is asked to do.
//!
//! The history is a table with one row for each command, which tells the
//! directory that the command was last run from, if that is known. Adding a
//! command again counts its uses and moves its row to the front; a search
//! lists rows from the front.

use vstd::prelude::*;

use crate::api::{limit_for, search_limit, SearchQuery};
use crate::config::opt_text;
use crate::like::{
    begins_with, escape_like, has_no_nul, law_prefix_pattern, like, prefix_pattern,
};

verus! {

/// Creates the table of commands.
pub const CREATE_HISTORY: &'static str = "CREATE TABLE IF NOT EXISTS history (
    id INTEGER PRIMARY KEY AUTOINCREMENT,
    command TEXT NOT NULL UNIQUE,
    cwd TEXT,
    first_seen_at INTEGER NOT NULL,
    last_seen_at INTEGER NOT NULL,
    use_count INTEGER NOT NULL DEFAULT 1
);";

/// Counts the columns of the table that hold directories: one, or none in a
/// table that was created without it.
pub const COUNT_CWD_COLUMNS: &'static str = "SELECT COUNT(*)
FROM pragma_table_info('history')
WHERE name = 'cwd'";

/// Adds the column that holds directories to a table without it.
pub const ADD_CWD_COLUMN: &'static str = "ALTER TABLE history ADD COLUMN cwd TEXT;";

/// Creates the index that finds commands by their text.
pub const CREATE_COMMAND_INDEX: &'static str = "CREATE INDEX IF NOT EXISTS idx_history_command
ON history(command);";

/// Creates the index that lists commands by the time of their last use.
pub const CREATE_LAST_SEEN_INDEX: &'static str = "CREATE INDEX IF NOT EXISTS idx_history_last_seen
ON history(last_seen_at DESC, id DESC);";

/// Adds a command that is run from a directory at a time, or counts one more
/// use of it.
pub const ADD_COMMAND: &'static str = "INSERT INTO history(command, cwd, first_seen_at, last_seen_at, use_count)
VALUES (?1, ?2, ?3, ?3, 1)
ON CONFLICT(command) DO UPDATE SET
    cwd = excluded.cwd,
    last_seen_at = excluded.last_seen_at,
    use_count = history.use_count + 1";

/// Lists so many of the commands that match a pattern, the last used first.
/// With a directory only those that were last run from it are listed.
pub const SEARCH_COMMANDS: &'static str = "SELECT id, command, cwd, last_seen_at, use_count
FROM history
WHERE command LIKE ?1 ESCAPE '\\'
    AND (?2 IS NULL OR cwd = ?2)
ORDER BY last_seen_at DESC, id DESC
LIMIT ?3";

/// A statement to run before the server starts, and what to say if it fails.
#[derive(Debug)]
pub struct Migration {
    pub statement: &'static str,
    pub failure: &'static str,
}

/// A statement with a command, a directory and a time for its parameters.
#[derive(Debug)]
pub struct AddPlan {
    pub statement: &'static str,
    pub command: String,
    pub cwd: Option<String>,
    pub now: i64,
}

/// A statement with a pattern, a directory and a number of rows for its
/// parameters.
#[derive(Debug)]
pub struct SearchPlan {
    pub statement: &'static str,
    pub pattern: String,
    pub cwd: Option<String>,
    pub limit: i64,
}

/// Whether `plan` is the one for `query`.
pub open spec fn searches(plan: SearchPlan, query: SearchQuery) -> bool {
    &&& plan.statement@ == SEARCH_COMMANDS@
    &&& plan.pattern@ == prefix_pattern(query.prefix@)
    &&& opt_text(plan.cwd) == opt_text(query.cwd)
    &&& plan.limit == limit_for(query.limit)
}

/// Whether the condition of [`SEARCH_COMMANDS`] holds, with the parameters of
/// `plan`, of a command that was last run from `cwd`.
pub open spec fn selects(plan: SearchPlan, command: Seq<char>, cwd: Option<Seq<char>>) -> bool {
    &&& like(plan.pattern@, command)
    &&& plan.cwd is None || (cwd is Some && cwd == opt_text(plan.cwd))
}

/// A search finds the commands that begin with its prefix and, where it names
/// a directory, were last run from there. Left out are prefixes and commands
/// with a NUL.
pub proof fn law_search_finds(
    plan: SearchPlan,
    query: SearchQuery,
    command: Seq<char>,
    cwd: Option<Seq<char>>,
)
    requires
        searches(plan, query),
        has_no_nul(query.prefix@),
        has_no_nul(command),
    ensures
        selects(plan, command, cwd) <==> begins_with(command, query.prefix@) && (query.cwd is None
            || cwd == opt_text(query.cwd)),
{
    law_prefix_pattern(query.prefix@, command);
}

/// The statement to run first: it creates the table.
pub fn create_table() -> (res: Migration)
    ensures
        res.statement@ == CREATE_HISTORY@,
        res.failure@ == "failed to create history table"@,
{
    Migration { statement: CREATE_HISTORY, failure: "failed to create history table" }
}

/// Whether `step` is the statement `statement`, with what to say if it fails.
pub open spec fn is_step(step: Migration, statement: Seq<char>, failure: Seq<char>) -> bool {
    step.statement@ == statement && step.failure@ == failure
}

/// The statements to run behind the first one, in their order: one that adds
/// the column of directories, if the table has none, and the two indexes.
/// `cwd_columns` is what [`COUNT_CWD_COLUMNS`] tells.
pub fn migrations(cwd_columns: i64) -> (res: Vec<Migration>)
    ensures
        res@.len() == if cwd_columns == 0 {
            3int
        } else {
            2
        },
        cwd_columns == 0 ==> is_step(res@[0], ADD_CWD_COLUMN@, "failed to add cwd column"@),
        is_step(
            res@[res@.len() - 2],
            CREATE_COMMAND_INDEX@,
            "failed to create command index"@,
        ),
        is_step(
            res@[res@.len() - 1],
            CREATE_LAST_SEEN_INDEX@,
            "failed to create last_seen index"@,
        ),
{
    let mut res: Vec<Migration> = Vec::new();
    if cwd_columns == 0 {
        res.push(Migration { statement: ADD_CWD_COLUMN, failure: "failed to add cwd column" });
    }
    res.push(
        Migration { statement: CREATE_COMMAND_INDEX, failure: "failed to create command index" },
    );
    res.push(
        Migration {
            statement: CREATE_LAST_SEEN_INDEX,
            failure: "failed to create last_seen index",
        },
    );
    res
}

/// What to do for a command that is run from `cwd` at the time `now`.
pub fn add_plan(command: String, cwd: Option<String>, now: i64) -> (res: AddPlan)
    ensures
        res.statement@ == ADD_COMMAND@,
        res.command@ == command@,
        opt_text(res.cwd) == opt_text(cwd),
        res.now == now,
{
    AddPlan { statement: ADD_COMMAND, command, cwd, now }
}

/// What to do for a search.
pub fn search_plan(query: &SearchQuery) -> (res: SearchPlan)
    ensures
        searches(res, *query),
{
    let mut pattern = escape_like(query.prefix.as_str());
    pattern.push('%');
    let cwd = match &query.cwd {
        Some(dir) => Some(dir.clone()),
        None => None,
    };
    SearchPlan { statement: SEARCH_COMMANDS, pattern, cwd, limit: search_limit(query.limit) }
}

} // verus!

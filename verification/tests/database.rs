use pwsh_history_server::api::SearchQuery;
use pwsh_history_server::store::{
    add_plan, create_table, migrations, search_plan, COUNT_CWD_COLUMNS,
};
use sqlx::sqlite::{SqlitePool, SqlitePoolOptions};
use sqlx::Row;

/// Runs `work` on an empty database.
fn with_database<F>(work: impl FnOnce(SqlitePool) -> F)
where
    F: std::future::Future<Output = ()>,
{
    let runtime = tokio::runtime::Builder::new_multi_thread()
        .worker_threads(1)
        .enable_all()
        .build()
        .unwrap();
    runtime.block_on(async {
        let db = SqlitePoolOptions::new()
            .max_connections(1)
            .connect("sqlite::memory:")
            .await
            .unwrap();
        work(db).await;
    });
}

async fn run(db: &SqlitePool, statement: &'static str) {
    sqlx::query(statement).execute(db).await.unwrap();
}

async fn migrate(db: &SqlitePool) {
    run(db, create_table().statement).await;
    let cwd_columns: i64 = sqlx::query_scalar(COUNT_CWD_COLUMNS)
        .fetch_one(db)
        .await
        .unwrap();
    for migration in migrations(cwd_columns) {
        run(db, migration.statement).await;
    }
}

async fn add(db: &SqlitePool, command: &str, cwd: Option<&str>, now: i64) {
    let plan = add_plan(command.to_string(), cwd.map(str::to_string), now);
    sqlx::query(plan.statement)
        .bind(plan.command)
        .bind(plan.cwd)
        .bind(plan.now)
        .execute(db)
        .await
        .unwrap();
}

type Entry = (String, Option<String>, i64, i64);

async fn search(db: &SqlitePool, prefix: &str, cwd: Option<&str>, limit: i64) -> Vec<Entry> {
    let plan = search_plan(&SearchQuery {
        prefix: prefix.to_string(),
        limit: Some(limit),
        cwd: cwd.map(str::to_string),
    });
    let rows = sqlx::query(plan.statement)
        .bind(plan.pattern)
        .bind(plan.cwd)
        .bind(plan.limit)
        .fetch_all(db)
        .await
        .unwrap();
    rows.iter()
        .map(|row| {
            (
                row.get("command"),
                row.get("cwd"),
                row.get("last_seen_at"),
                row.get("use_count"),
            )
        })
        .collect()
}

fn entry(command: &str, cwd: Option<&str>, time: i64, uses: i64) -> Entry {
    (command.to_string(), cwd.map(str::to_string), time, uses)
}

#[test]
fn added_commands_are_found_with_their_directory() {
    with_database(|db| async move {
        migrate(&db).await;
        add(&db, "git status", Some("/a"), 1).await;
        add(&db, "git push", None, 2).await;
        add(&db, "ls", Some("/a"), 3).await;
        assert_eq!(
            search(&db, "git", None, 10).await,
            [entry("git push", None, 2, 1), entry("git status", Some("/a"), 1, 1)]
        );
        assert_eq!(
            search(&db, "GIT", Some("/a"), 10).await,
            [entry("git status", Some("/a"), 1, 1)]
        );
        assert_eq!(search(&db, "git", Some("/b"), 10).await, []);
        assert_eq!(search(&db, "", None, 1).await, [entry("ls", Some("/a"), 3, 1)]);
    });
}

#[test]
fn directory_is_the_one_of_the_last_use() {
    with_database(|db| async move {
        migrate(&db).await;
        add(&db, "make", Some("/a"), 1).await;
        add(&db, "make", Some("/b"), 5).await;
        assert_eq!(search(&db, "m", Some("/a"), 10).await, []);
        assert_eq!(
            search(&db, "m", Some("/b"), 10).await,
            [entry("make", Some("/b"), 5, 2)]
        );
        add(&db, "make", None, 6).await;
        assert_eq!(search(&db, "m", Some("/b"), 10).await, []);
        assert_eq!(search(&db, "m", None, 10).await, [entry("make", None, 6, 3)]);
    });
}

#[test]
fn older_tables_get_the_column() {
    with_database(|db| async move {
        run(
            &db,
            "CREATE TABLE history (
                id INTEGER PRIMARY KEY AUTOINCREMENT,
                command TEXT NOT NULL UNIQUE,
                first_seen_at INTEGER NOT NULL,
                last_seen_at INTEGER NOT NULL,
                use_count INTEGER NOT NULL DEFAULT 1
            )",
        )
        .await;
        run(
            &db,
            "INSERT INTO history(command, first_seen_at, last_seen_at) VALUES ('ls', 1, 1)",
        )
        .await;
        migrate(&db).await;
        migrate(&db).await;
        assert_eq!(search(&db, "", None, 10).await, [entry("ls", None, 1, 1)]);
        add(&db, "ls", Some("/a"), 2).await;
        assert_eq!(search(&db, "", Some("/a"), 10).await, [entry("ls", Some("/a"), 2, 2)]);
    });
}

#[test]
fn wildcards_are_taken_literally() {
    with_database(|db| async move {
        migrate(&db).await;
        for (time, command) in ["50%_x", "50ab", r"C:\x\y", "C:xy"].iter().enumerate() {
            add(&db, command, None, time as i64).await;
        }
        assert_eq!(search(&db, "50%", None, 10).await, [entry("50%_x", None, 0, 1)]);
        assert_eq!(search(&db, r"c:\", None, 10).await, [entry(r"C:\x\y", None, 2, 1)]);
        let command = r"echo 50%_\ done";
        add(&db, command, None, 9).await;
        for n in 0..=command.len() {
            assert_eq!(search(&db, &command[..n], None, 1).await, [entry(command, None, 9, 1)]);
        }
    });
}

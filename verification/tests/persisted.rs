use ctfd_pwn_college::db::{StorageError, DB};
use ctfd_pwn_college::import::{
    import_challenges_from_module, ImportAction, ImportError, ImportEvent, ModuleImport,
};
use ctfd_pwn_college::index::Constraint;
use ctfd_pwn_college::schema;
use ctfd_pwn_college::sync::{SyncAction, SyncError, SyncEvent, UserImport};
use rusqlite::Connection;

type Rows = (Vec<(i64, String)>, Vec<(i64, String, String)>, Vec<(i64, i64)>, Vec<(String, String)>);

fn text(s: &str) -> String {
    String::from(s)
}

fn names(list: &[&str]) -> Vec<String> {
    list.iter().map(|s| text(s)).collect()
}

/// A persisted store in memory, with the library's tables.
fn open() -> Connection {
    let conn = Connection::open_in_memory().unwrap();
    conn.execute_batch(schema::ENFORCE_FOREIGN_KEYS).unwrap();
    for table in [
        schema::CREATE_FLAGS,
        schema::CREATE_USERS,
        schema::CREATE_CHALLENGES,
        schema::CREATE_SOLVES,
    ] {
        conn.execute(table, ()).unwrap();
    }
    conn
}

fn read(conn: &Connection) -> Rows {
    let users = conn
        .prepare(schema::SELECT_USERS)
        .unwrap()
        .query_map([], |row| Ok((row.get::<_, i64>(0)?, row.get::<_, String>(1)?)))
        .unwrap()
        .collect::<Result<Vec<_>, _>>()
        .unwrap();
    let challenges = conn
        .prepare(schema::SELECT_CHALLENGES)
        .unwrap()
        .query_map([], |row| {
            Ok((row.get::<_, i64>(0)?, row.get::<_, String>(1)?, row.get::<_, String>(2)?))
        })
        .unwrap()
        .collect::<Result<Vec<_>, _>>()
        .unwrap();
    let solves = conn
        .prepare(schema::SELECT_SOLVES)
        .unwrap()
        .query_map([], |row| Ok((row.get::<_, i64>(0)?, row.get::<_, i64>(1)?)))
        .unwrap()
        .collect::<Result<Vec<_>, _>>()
        .unwrap();
    let flags = conn
        .prepare(schema::SELECT_FLAGS)
        .unwrap()
        .query_map([], |row| Ok((row.get::<_, String>(0)?, row.get::<_, String>(1)?)))
        .unwrap()
        .collect::<Result<Vec<_>, _>>()
        .unwrap();
    (users, challenges, solves, flags)
}

fn rebuild(conn: &Connection) -> DB {
    let (users, challenges, solves, flags) = read(conn);
    DB::new(&users, &challenges, &solves, &flags).unwrap()
}

fn store_user(conn: &Connection, username: &str) -> Result<i64, String> {
    conn.execute(schema::INSERT_USER, (username,)).map_err(|e| format!("{:?}", e))?;
    conn.query_row(schema::SELECT_USER_ID, [username], |row| row.get(0))
        .map_err(|e| format!("{:?}", e))
}

fn store_challenge(conn: &Connection, id: i64, name: &str, module: &str) -> Result<(), String> {
    conn.execute(schema::INSERT_CHALLENGE, (id, name, module))
        .map(|_| ())
        .map_err(|e| format!("{:?}", e))
}

fn store_flag(conn: &Connection, module: &str, flag: &str) -> Result<(), String> {
    conn.execute(schema::INSERT_FLAG, (module, flag)).map(|_| ()).map_err(|e| format!("{:?}", e))
}

fn store_solve(conn: &Connection, user_id: i64, challenge_id: i64) -> Result<(), String> {
    conn.execute(schema::INSERT_SOLVE, (user_id, challenge_id))
        .map(|_| ())
        .map_err(|e| format!("{:?}", e))
}

/// Whether two stores answer every question asked here alike.
fn assert_same(a: &DB, b: &DB) {
    for name in ["alice", "bob", "carol", ""] {
        assert_eq!(a.user_id(name), b.user_id(name));
        assert_eq!(a.user_exists(name), b.user_exists(name));
    }
    for name in ["Intro", "Basics", "Heap", "Other"] {
        assert_eq!(a.challenge_id(name), b.challenge_id(name));
        assert_eq!(a.module_of(name), b.module_of(name));
    }
    for module in ["m1", "m2", "m3"] {
        assert_eq!(a.flag_of(module), b.flag_of(module));
        assert_eq!(a.flag_exists(module), b.flag_exists(module));
    }
    for user in 0..6 {
        for challenge in 38..53 {
            assert_eq!(a.has_solve(user, challenge), b.has_solve(user, challenge));
        }
    }
    assert_eq!(a.imported_modules(), b.imported_modules());
}

#[test]
fn fresh_file_gives_an_empty_index() {
    let conn = open();
    let db = rebuild(&conn);
    assert_same(&db, &DB::empty());
    // Creating the tables a second time changes nothing.
    conn.execute(schema::CREATE_USERS, ()).unwrap();
    assert_same(&rebuild(&conn), &DB::empty());
}

#[test]
fn engine_and_index_refuse_the_same_rows() {
    let conn = open();
    let mut db = DB::empty();

    let id = store_user(&conn, "alice").unwrap();
    assert_eq!(db.insert_user("alice", id), Ok(id));
    assert!(store_user(&conn, "alice").is_err());
    assert_eq!(
        db.insert_user("alice", id + 1),
        Err(StorageError::Violated(Constraint::UniqueUsername))
    );

    assert!(store_challenge(&conn, 41, "Intro", "m1").is_ok());
    assert_eq!(db.insert_challenge(41, "Intro", "m1"), Ok(()));
    assert!(store_challenge(&conn, 42, "Intro", "m2").is_err());
    assert_eq!(
        db.insert_challenge(42, "Intro", "m2"),
        Err(StorageError::Violated(Constraint::UniqueChallengeName))
    );
    assert!(store_challenge(&conn, 41, "Basics", "m1").is_err());
    assert_eq!(
        db.insert_challenge(41, "Basics", "m1"),
        Err(StorageError::Violated(Constraint::UniqueChallengeId))
    );

    assert!(store_flag(&conn, "m1", "aa").is_ok());
    assert_eq!(db.insert_flag("m1", "aa"), Ok(()));
    assert!(store_flag(&conn, "m1", "bb").is_err());
    assert_eq!(
        db.insert_flag("m1", "bb"),
        Err(StorageError::Violated(Constraint::UniqueModule))
    );

    assert!(store_solve(&conn, id + 7, 41).is_err());
    assert_eq!(
        db.insert_solve(id + 7, 41),
        Err(StorageError::Violated(Constraint::SolveUser))
    );
    assert!(store_solve(&conn, id, 99).is_err());
    assert_eq!(
        db.insert_solve(id, 99),
        Err(StorageError::Violated(Constraint::SolveChallenge))
    );
    assert!(store_solve(&conn, id, 41).is_ok());
    assert_eq!(db.insert_solve(id, 41), Ok(()));
    assert!(store_solve(&conn, id, 41).is_err());
    assert_eq!(
        db.insert_solve(id, 41),
        Err(StorageError::Violated(Constraint::UniqueSolve))
    );

    assert_same(&rebuild(&conn), &db);
}

#[test]
fn index_rebuilt_from_the_file_equals_the_index_kept_live() {
    let conn = open();
    let mut live = DB::empty();
    assert_same(&rebuild(&conn), &live);

    store_challenge(&conn, 41, "Intro", "m1").unwrap();
    live.insert_challenge(41, "Intro", "m1").unwrap();
    assert_same(&rebuild(&conn), &live);

    store_flag(&conn, "m2", "f2").unwrap();
    live.insert_flag("m2", "f2").unwrap();
    let alice = store_user(&conn, "alice").unwrap();
    live.insert_user("alice", alice).unwrap();
    assert_same(&rebuild(&conn), &live);

    store_solve(&conn, alice, 41).unwrap();
    live.insert_solve(alice, 41).unwrap();
    store_challenge(&conn, 40, "Basics", "m1").unwrap();
    live.insert_challenge(40, "Basics", "m1").unwrap();
    let bob = store_user(&conn, "bob").unwrap();
    live.insert_user("bob", bob).unwrap();
    store_solve(&conn, bob, 40).unwrap();
    live.insert_solve(bob, 40).unwrap();
    store_solve(&conn, alice, 40).unwrap();
    live.insert_solve(alice, 40).unwrap();
    store_flag(&conn, "m1", "f1").unwrap();
    live.insert_flag("m1", "f1").unwrap();

    let rebuilt = rebuild(&conn);
    assert_same(&rebuilt, &live);
    assert_eq!(rebuilt.imported_modules(), vec![text("m2"), text("m1")]);
    assert!(rebuilt.has_solve(alice, 41));
    assert!(rebuilt.has_solve(alice, 40));
    assert!(rebuilt.has_solve(bob, 40));
    assert!(!rebuilt.has_solve(bob, 41));
}

#[test]
fn deleting_a_user_removes_the_solves_of_that_user() {
    let conn = open();
    store_challenge(&conn, 41, "Intro", "m1").unwrap();
    store_challenge(&conn, 42, "Basics", "m1").unwrap();
    let alice = store_user(&conn, "alice").unwrap();
    let bob = store_user(&conn, "bob").unwrap();
    store_solve(&conn, alice, 41).unwrap();
    store_solve(&conn, alice, 42).unwrap();
    store_solve(&conn, bob, 41).unwrap();

    conn.execute("DELETE FROM users WHERE username = ?1", ("alice",)).unwrap();

    let (users, _, solves, _) = read(&conn);
    assert_eq!(users, vec![(bob, text("bob"))]);
    assert_eq!(solves, vec![(bob, 41)]);
    // What is left still obeys the schema, so the index can be built from it.
    let db = rebuild(&conn);
    assert!(!db.user_exists("alice"));
    assert!(!db.has_solve(alice, 41));
    assert!(!db.has_solve(alice, 42));
    assert!(db.has_solve(bob, 41));
}

#[test]
fn deleting_a_challenge_removes_the_solves_of_that_challenge() {
    let conn = open();
    store_challenge(&conn, 41, "Intro", "m1").unwrap();
    store_challenge(&conn, 42, "Basics", "m1").unwrap();
    let alice = store_user(&conn, "alice").unwrap();
    let bob = store_user(&conn, "bob").unwrap();
    store_solve(&conn, alice, 41).unwrap();
    store_solve(&conn, alice, 42).unwrap();
    store_solve(&conn, bob, 41).unwrap();

    conn.execute("DELETE FROM challenges WHERE id = ?1", (41,)).unwrap();

    let (_, challenges, solves, _) = read(&conn);
    assert_eq!(challenges, vec![(42, text("Basics"), text("m1"))]);
    assert_eq!(solves, vec![(alice, 42)]);
    let db = rebuild(&conn);
    assert_eq!(db.challenge_id("Intro"), None);
    assert!(db.has_solve(alice, 42));
    assert!(!db.has_solve(alice, 41));
    assert!(!db.has_solve(bob, 41));
}

/// Runs an import of `module` against the file, answering for both
/// platforms: the upstream platform lists `challenges`, and the challenge
/// platform files them under consecutive ids from `first_id`.
fn import(
    conn: &Connection,
    db: &mut DB,
    module: &str,
    challenges: &[&str],
    first_id: i64,
) -> (Result<(), ImportError>, usize) {
    let mut run = ModuleImport::new(module);
    let mut event = ImportEvent::Start;
    let mut created = 0;
    loop {
        event = match import_challenges_from_module(db, &mut run, event) {
            ImportAction::ListChallenges { .. } => ImportEvent::Challenges(names(challenges)),
            ImportAction::ResolveModuleName { module } => {
                ImportEvent::ModuleName(format!("Pretty {}", module))
            }
            ImportAction::CreateChallenge { .. } => {
                created += 1;
                ImportEvent::Created(first_id + created as i64 - 1)
            }
            ImportAction::StoreChallenge { id, name, module } => {
                match store_challenge(conn, id, &name, &module) {
                    Ok(()) => ImportEvent::ChallengeStored,
                    Err(report) => ImportEvent::StoreFailed(report),
                }
            }
            ImportAction::StoreFlag { module, flag } => match store_flag(conn, &module, &flag) {
                Ok(()) => ImportEvent::FlagStored,
                Err(report) => ImportEvent::StoreFailed(report),
            },
            ImportAction::Finished(result) => return (result, created),
        };
    }
}

#[test]
fn import_writes_two_challenges_and_one_flag_and_a_second_import_writes_nothing() {
    let conn = open();
    let mut db = DB::empty();
    let (result, created) = import(&conn, &mut db, "m1", &["Intro", "Basics"], 41);
    assert_eq!(result, Ok(()));
    assert_eq!(created, 2);

    let (_, challenges, _, flags) = read(&conn);
    assert_eq!(
        challenges,
        vec![(41, text("Intro"), text("m1")), (42, text("Basics"), text("m1"))]
    );
    assert_eq!(flags.len(), 1);
    assert_eq!(flags[0].0, "m1");
    assert_eq!(flags[0].1.len(), 64);
    assert!(flags[0].1.chars().all(|c| matches!(c, '0'..='9' | 'a'..='f')));
    assert_same(&rebuild(&conn), &db);

    let (again, created_again) = import(&conn, &mut db, "m1", &["Intro", "Basics"], 90);
    assert_eq!(again, Err(ImportError::AlreadyImported));
    assert_eq!(created_again, 0);
    assert_eq!(read(&conn).1, challenges);
    assert_eq!(read(&conn).3, flags);
    assert_same(&rebuild(&conn), &db);
}

/// Runs one tick of the import of new users against the file. The challenge
/// platform lists `users`; the upstream platform reports that everyone
/// solved `solved` in every module, and resolves a raw id by `resolve`.
fn sync(
    conn: &Connection,
    db: &mut DB,
    users: &[&str],
    solved: &[&str],
    resolve: fn(&str) -> String,
) -> Result<(), SyncError> {
    let mut run = UserImport::new();
    let mut event = SyncEvent::Start;
    loop {
        event = match db.get_and_insert_new_users(&mut run, event) {
            SyncAction::ListUsers => SyncEvent::Users(names(users)),
            SyncAction::StoreUser { username } => match store_user(conn, &username) {
                Ok(id) => SyncEvent::UserStored(id),
                Err(report) => SyncEvent::StoreFailed(report),
            },
            SyncAction::ListSolves { .. } => SyncEvent::Solves(names(solved)),
            SyncAction::ResolveName { challenge } => SyncEvent::Name(resolve(&challenge)),
            SyncAction::StoreSolve { user_id, challenge_id } => {
                match store_solve(conn, user_id, challenge_id) {
                    Ok(()) => SyncEvent::SolveStored,
                    Err(report) => SyncEvent::StoreFailed(report),
                }
            }
            SyncAction::Finished(result) => return result,
        };
    }
}

fn pretty(raw: &str) -> String {
    match raw {
        "ch1" => text("Intro"),
        "ch3" => text("Basics"),
        other => format!("Unknown {}", other),
    }
}

#[test]
fn sync_writes_the_new_user_and_her_solve() {
    let conn = open();
    let mut db = DB::empty();
    assert_eq!(import(&conn, &mut db, "m1", &["Intro", "Basics"], 41).0, Ok(()));

    assert_eq!(sync(&conn, &mut db, &["alice"], &["ch3"], pretty), Ok(()));

    let (users, _, solves, _) = read(&conn);
    assert_eq!(users.len(), 1);
    assert_eq!(users[0].1, "alice");
    let alice = users[0].0;
    assert_eq!(solves, vec![(alice, 42)]);
    assert_eq!(db.user_id("alice"), Some(alice));
    assert!(db.has_solve(alice, 42));
    assert_same(&rebuild(&conn), &db);
}

#[test]
fn sync_writes_one_row_for_the_new_user_and_none_for_the_known_one() {
    for listed in [["alice", "bob"], ["bob", "alice"]] {
        let conn = open();
        let mut db = DB::empty();
        assert_eq!(sync(&conn, &mut db, &["alice"], &[], pretty), Ok(()));
        let before = read(&conn).0;
        assert_eq!(before.len(), 1);

        assert_eq!(sync(&conn, &mut db, &listed, &[], pretty), Ok(()));

        let after = read(&conn).0;
        assert_eq!(after.len(), 2);
        assert_eq!(after[0], before[0]);
        assert_eq!(after[1].1, "bob");
        assert_same(&rebuild(&conn), &db);

        // A further tick finds nothing to do.
        assert_eq!(sync(&conn, &mut db, &listed, &[], pretty), Ok(()));
        assert_eq!(read(&conn).0, after);
    }
}

#[test]
fn sync_reports_the_unresolved_challenge_and_keeps_the_user() {
    let conn = open();
    let mut db = DB::empty();
    assert_eq!(import(&conn, &mut db, "m1", &["Intro", "Basics"], 41).0, Ok(()));

    let result = sync(&conn, &mut db, &["alice"], &["ch1", "zz9"], pretty);
    match result {
        Err(SyncError::UnresolvedChallenge { context, name }) => {
            assert_eq!(context.user, Some(text("alice")));
            assert_eq!(context.module, Some(text("m1")));
            assert_eq!(context.challenge, Some(text("zz9")));
            assert_eq!(name, "Unknown zz9");
        }
        other => panic!("unexpected result: {:?}", other),
    }
    let (users, _, solves, _) = read(&conn);
    assert_eq!(users.len(), 1);
    assert_eq!(users[0].1, "alice");
    // The solve filed before the failure stays, in the file and in the index.
    assert_eq!(solves, vec![(users[0].0, 41)]);
    assert_same(&rebuild(&conn), &db);
}

use ctfd_pwn_college::db::{StorageError, DB};
use ctfd_pwn_college::index::Constraint;
use ctfd_pwn_college::remote::RemoteApiError;
use ctfd_pwn_college::sync::{Context, SyncAction, SyncError, SyncEvent, UserImport};

fn text(s: &str) -> String {
    String::from(s)
}

fn names(list: &[&str]) -> Vec<String> {
    list.iter().map(|s| text(s)).collect()
}

/// A store in which module `m1` was imported with the challenges `Intro`
/// (id 41) and `Basics` (id 42).
fn imported_store() -> DB {
    let mut db = DB::empty();
    assert_eq!(db.insert_challenge(41, "Intro", "m1"), Ok(()));
    assert_eq!(db.insert_challenge(42, "Basics", "m1"), Ok(()));
    assert_eq!(db.insert_flag("m1", "00ff"), Ok(()));
    db
}

fn list_solves(module: &str, username: &str) -> SyncAction {
    SyncAction::ListSolves {
        course: text("intro-to-cybersecurity"),
        module: text(module),
        username: text(username),
    }
}

#[test]
fn run_begins_by_asking_for_the_users() {
    let mut db = DB::empty();
    let mut run = UserImport::new();
    assert!(!run.is_done());
    assert_eq!(db.get_and_insert_new_users(&mut run, SyncEvent::Start), SyncAction::ListUsers);
    assert!(!run.is_done());
}

#[test]
fn no_new_users_is_a_no_op() {
    let mut db = imported_store();
    assert_eq!(db.insert_user("alice", 1), Ok(1));
    let mut run = UserImport::new();
    db.get_and_insert_new_users(&mut run, SyncEvent::Start);
    let action = db.get_and_insert_new_users(&mut run, SyncEvent::Users(names(&["alice"])));
    assert_eq!(action, SyncAction::Finished(Ok(())));
    assert!(run.is_done());
    assert_eq!(db.user_id("alice"), Some(1));
}

#[test]
fn empty_user_list_is_a_no_op() {
    let mut db = imported_store();
    let mut run = UserImport::new();
    db.get_and_insert_new_users(&mut run, SyncEvent::Start);
    let action = db.get_and_insert_new_users(&mut run, SyncEvent::Users(Vec::new()));
    assert_eq!(action, SyncAction::Finished(Ok(())));
}

#[test]
fn new_user_with_a_solve_gets_user_row_and_solve_row() {
    let mut db = imported_store();
    let mut run = UserImport::new();
    assert_eq!(db.get_and_insert_new_users(&mut run, SyncEvent::Start), SyncAction::ListUsers);
    assert_eq!(
        db.get_and_insert_new_users(&mut run, SyncEvent::Users(names(&["alice"]))),
        SyncAction::StoreUser { username: text("alice") }
    );
    // Nothing is on record before the persisted store has answered.
    assert!(!db.user_exists("alice"));
    assert_eq!(
        db.get_and_insert_new_users(&mut run, SyncEvent::UserStored(5)),
        list_solves("m1", "alice")
    );
    assert_eq!(db.user_id("alice"), Some(5));
    assert_eq!(
        db.get_and_insert_new_users(&mut run, SyncEvent::Solves(names(&["ch3"]))),
        SyncAction::ResolveName { challenge: text("ch3") }
    );
    assert_eq!(
        db.get_and_insert_new_users(&mut run, SyncEvent::Name(text("Basics"))),
        SyncAction::StoreSolve { user_id: 5, challenge_id: 42 }
    );
    assert!(!db.has_solve(5, 42));
    assert_eq!(
        db.get_and_insert_new_users(&mut run, SyncEvent::SolveStored),
        SyncAction::Finished(Ok(()))
    );
    assert!(run.is_done());
    assert!(db.has_solve(5, 42));
    assert!(!db.has_solve(5, 41));
}

#[test]
fn unresolved_challenge_is_reported_and_the_user_row_stays() {
    let mut db = imported_store();
    let mut run = UserImport::new();
    db.get_and_insert_new_users(&mut run, SyncEvent::Start);
    db.get_and_insert_new_users(&mut run, SyncEvent::Users(names(&["alice"])));
    db.get_and_insert_new_users(&mut run, SyncEvent::UserStored(5));
    db.get_and_insert_new_users(&mut run, SyncEvent::Solves(names(&["ch9"])));
    let action = db.get_and_insert_new_users(&mut run, SyncEvent::Name(text("Advanced")));
    assert_eq!(
        action,
        SyncAction::Finished(Err(SyncError::UnresolvedChallenge {
            context: Context {
                user: Some(text("alice")),
                module: Some(text("m1")),
                challenge: Some(text("ch9")),
            },
            name: text("Advanced"),
        }))
    );
    assert!(run.is_done());
    assert_eq!(db.user_id("alice"), Some(5));
}

#[test]
fn solves_stored_before_an_unresolved_one_stay() {
    let mut db = imported_store();
    let mut run = UserImport::new();
    db.get_and_insert_new_users(&mut run, SyncEvent::Start);
    db.get_and_insert_new_users(&mut run, SyncEvent::Users(names(&["alice"])));
    db.get_and_insert_new_users(&mut run, SyncEvent::UserStored(5));
    db.get_and_insert_new_users(&mut run, SyncEvent::Solves(names(&["ch1", "ch9"])));
    db.get_and_insert_new_users(&mut run, SyncEvent::Name(text("Intro")));
    assert_eq!(
        db.get_and_insert_new_users(&mut run, SyncEvent::SolveStored),
        SyncAction::ResolveName { challenge: text("ch9") }
    );
    let action = db.get_and_insert_new_users(&mut run, SyncEvent::Name(text("Nowhere")));
    assert!(matches!(
        action,
        SyncAction::Finished(Err(SyncError::UnresolvedChallenge { .. }))
    ));
    assert!(db.has_solve(5, 41));
}

#[test]
fn known_user_is_skipped_whatever_the_order() {
    for list in [["alice", "bob"], ["bob", "alice"]] {
        let mut db = DB::empty();
        assert_eq!(db.insert_user("alice", 1), Ok(1));
        let mut run = UserImport::new();
        db.get_and_insert_new_users(&mut run, SyncEvent::Start);
        assert_eq!(
            db.get_and_insert_new_users(&mut run, SyncEvent::Users(names(&list))),
            SyncAction::StoreUser { username: text("bob") }
        );
        assert_eq!(
            db.get_and_insert_new_users(&mut run, SyncEvent::UserStored(2)),
            SyncAction::Finished(Ok(()))
        );
        assert_eq!(db.user_id("alice"), Some(1));
        assert_eq!(db.user_id("bob"), Some(2));
    }
}

#[test]
fn username_listed_twice_is_stored_once() {
    let mut db = DB::empty();
    let mut run = UserImport::new();
    db.get_and_insert_new_users(&mut run, SyncEvent::Start);
    assert_eq!(
        db.get_and_insert_new_users(&mut run, SyncEvent::Users(names(&["bob", "bob"]))),
        SyncAction::StoreUser { username: text("bob") }
    );
    assert_eq!(
        db.get_and_insert_new_users(&mut run, SyncEvent::UserStored(2)),
        SyncAction::Finished(Ok(()))
    );
}

#[test]
fn every_imported_module_is_asked_for_every_new_user() {
    let mut db = imported_store();
    assert_eq!(db.insert_challenge(50, "Heap", "m2"), Ok(()));
    assert_eq!(db.insert_flag("m2", "11"), Ok(()));
    let mut run = UserImport::new();
    db.get_and_insert_new_users(&mut run, SyncEvent::Start);
    assert_eq!(
        db.get_and_insert_new_users(&mut run, SyncEvent::Users(names(&["alice", "bob"]))),
        SyncAction::StoreUser { username: text("alice") }
    );
    assert_eq!(
        db.get_and_insert_new_users(&mut run, SyncEvent::UserStored(1)),
        list_solves("m1", "alice")
    );
    assert_eq!(
        db.get_and_insert_new_users(&mut run, SyncEvent::Solves(Vec::new())),
        list_solves("m2", "alice")
    );
    assert_eq!(
        db.get_and_insert_new_users(&mut run, SyncEvent::Solves(names(&["h"]))),
        SyncAction::ResolveName { challenge: text("h") }
    );
    assert_eq!(
        db.get_and_insert_new_users(&mut run, SyncEvent::Name(text("Heap"))),
        SyncAction::StoreSolve { user_id: 1, challenge_id: 50 }
    );
    assert_eq!(
        db.get_and_insert_new_users(&mut run, SyncEvent::SolveStored),
        SyncAction::StoreUser { username: text("bob") }
    );
    assert_eq!(
        db.get_and_insert_new_users(&mut run, SyncEvent::UserStored(2)),
        list_solves("m1", "bob")
    );
    assert_eq!(
        db.get_and_insert_new_users(&mut run, SyncEvent::Solves(Vec::new())),
        list_solves("m2", "bob")
    );
    assert_eq!(
        db.get_and_insert_new_users(&mut run, SyncEvent::Solves(Vec::new())),
        SyncAction::Finished(Ok(()))
    );
    assert!(db.has_solve(1, 50));
    assert!(!db.has_solve(2, 50));
}

#[test]
fn failure_to_list_users_ends_the_run() {
    let mut db = DB::empty();
    let mut run = UserImport::new();
    db.get_and_insert_new_users(&mut run, SyncEvent::Start);
    let action = db.get_and_insert_new_users(
        &mut run,
        SyncEvent::RemoteFailed(RemoteApiError::Status(500)),
    );
    assert_eq!(
        action,
        SyncAction::Finished(Err(SyncError::RemoteApi {
            context: Context { user: None, module: None, challenge: None },
            error: RemoteApiError::Status(500),
        }))
    );
    assert!(run.is_done());
}

#[test]
fn failure_of_the_persisted_store_ends_the_run_and_leaves_the_index() {
    let mut db = DB::empty();
    let mut run = UserImport::new();
    db.get_and_insert_new_users(&mut run, SyncEvent::Start);
    db.get_and_insert_new_users(&mut run, SyncEvent::Users(names(&["alice"])));
    let action =
        db.get_and_insert_new_users(&mut run, SyncEvent::StoreFailed(text("disk full")));
    assert_eq!(
        action,
        SyncAction::Finished(Err(SyncError::Storage {
            context: Context { user: Some(text("alice")), module: None, challenge: None },
            error: StorageError::Engine(text("disk full")),
        }))
    );
    assert!(!db.user_exists("alice"));
}

#[test]
fn id_that_is_in_use_is_refused() {
    let mut db = DB::empty();
    assert_eq!(db.insert_user("alice", 1), Ok(1));
    let mut run = UserImport::new();
    db.get_and_insert_new_users(&mut run, SyncEvent::Start);
    db.get_and_insert_new_users(&mut run, SyncEvent::Users(names(&["bob"])));
    let action = db.get_and_insert_new_users(&mut run, SyncEvent::UserStored(1));
    assert_eq!(
        action,
        SyncAction::Finished(Err(SyncError::Storage {
            context: Context { user: Some(text("bob")), module: None, challenge: None },
            error: StorageError::Violated(Constraint::UniqueUserId),
        }))
    );
    assert!(!db.user_exists("bob"));
}

#[test]
fn solve_reported_twice_is_refused_before_it_is_stored() {
    let mut db = imported_store();
    let mut run = UserImport::new();
    db.get_and_insert_new_users(&mut run, SyncEvent::Start);
    db.get_and_insert_new_users(&mut run, SyncEvent::Users(names(&["alice"])));
    db.get_and_insert_new_users(&mut run, SyncEvent::UserStored(5));
    db.get_and_insert_new_users(&mut run, SyncEvent::Solves(names(&["a", "b"])));
    db.get_and_insert_new_users(&mut run, SyncEvent::Name(text("Intro")));
    db.get_and_insert_new_users(&mut run, SyncEvent::SolveStored);
    let action = db.get_and_insert_new_users(&mut run, SyncEvent::Name(text("Intro")));
    assert_eq!(
        action,
        SyncAction::Finished(Err(SyncError::Storage {
            context: Context {
                user: Some(text("alice")),
                module: Some(text("m1")),
                challenge: Some(text("b")),
            },
            error: StorageError::Violated(Constraint::UniqueSolve),
        }))
    );
    assert!(db.has_solve(5, 41));
}

#[test]
fn event_that_answers_nothing_ends_the_run() {
    let mut db = DB::empty();
    let mut run = UserImport::new();
    assert_eq!(
        db.get_and_insert_new_users(&mut run, SyncEvent::SolveStored),
        SyncAction::Finished(Err(SyncError::OutOfOrder))
    );
    assert!(run.is_done());
    assert_eq!(
        db.get_and_insert_new_users(&mut run, SyncEvent::Start),
        SyncAction::Finished(Err(SyncError::OutOfOrder))
    );
}

#[test]
fn modules_imported_after_the_start_are_not_asked_for() {
    let mut db = DB::empty();
    let mut run = UserImport::new();
    db.get_and_insert_new_users(&mut run, SyncEvent::Start);
    assert_eq!(db.insert_flag("late", "22"), Ok(()));
    db.get_and_insert_new_users(&mut run, SyncEvent::Users(names(&["alice"])));
    assert_eq!(
        db.get_and_insert_new_users(&mut run, SyncEvent::UserStored(1)),
        SyncAction::Finished(Ok(()))
    );
}

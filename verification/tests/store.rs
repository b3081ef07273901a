use ctfd_pwn_college::db::{StorageError, DB};
use ctfd_pwn_college::index::Constraint;

fn text(s: &str) -> String {
    String::from(s)
}

#[test]
fn empty_store_knows_nothing() {
    let db = DB::empty();
    assert!(!db.user_exists("alice"));
    assert!(!db.flag_exists("m1"));
    assert_eq!(db.user_id("alice"), None);
    assert_eq!(db.challenge_id("Intro"), None);
    assert_eq!(db.module_of("Intro"), None);
    assert_eq!(db.flag_of("m1"), None);
    assert!(!db.has_solve(1, 1));
    assert!(db.imported_modules().is_empty());
}

#[test]
fn inserted_user_is_found_by_name() {
    let mut db = DB::empty();
    assert_eq!(db.insert_user("alice", 7), Ok(7));
    assert!(db.user_exists("alice"));
    assert!(!db.user_exists("bob"));
    assert_eq!(db.user_id("alice"), Some(7));
}

#[test]
fn second_user_of_same_name_is_refused() {
    let mut db = DB::empty();
    assert_eq!(db.insert_user("alice", 1), Ok(1));
    assert_eq!(
        db.insert_user("alice", 2),
        Err(StorageError::Violated(Constraint::UniqueUsername))
    );
    assert_eq!(db.user_id("alice"), Some(1));
}

#[test]
fn second_user_of_same_id_is_refused() {
    let mut db = DB::empty();
    assert_eq!(db.insert_user("alice", 1), Ok(1));
    assert_eq!(
        db.insert_user("bob", 1),
        Err(StorageError::Violated(Constraint::UniqueUserId))
    );
    assert!(!db.user_exists("bob"));
}

#[test]
fn challenge_is_filed_under_the_remote_id() {
    let mut db = DB::empty();
    assert_eq!(db.insert_challenge(41, "Intro", "m1"), Ok(()));
    assert_eq!(db.challenge_id("Intro"), Some(41));
    assert_eq!(db.module_of("Intro"), Some(text("m1")));
}

#[test]
fn two_challenges_of_the_same_name_fail_with_storage_error() {
    let mut db = DB::empty();
    assert_eq!(db.insert_challenge(41, "Intro", "m1"), Ok(()));
    assert_eq!(
        db.insert_challenge(42, "Intro", "m2"),
        Err(StorageError::Violated(Constraint::UniqueChallengeName))
    );
    assert_eq!(db.challenge_id("Intro"), Some(41));
    assert_eq!(db.module_of("Intro"), Some(text("m1")));
}

#[test]
fn two_challenges_of_the_same_id_fail_with_storage_error() {
    let mut db = DB::empty();
    assert_eq!(db.insert_challenge(41, "Intro", "m1"), Ok(()));
    assert_eq!(
        db.insert_challenge(41, "Basics", "m1"),
        Err(StorageError::Violated(Constraint::UniqueChallengeId))
    );
    assert_eq!(db.challenge_id("Basics"), None);
}

#[test]
fn check_challenge_agrees_with_insert_and_changes_nothing() {
    let mut db = DB::empty();
    assert_eq!(db.check_challenge(41, "Intro", "m1"), Ok(()));
    assert_eq!(db.challenge_id("Intro"), None);
    assert_eq!(db.insert_challenge(41, "Intro", "m1"), Ok(()));
    assert_eq!(
        db.check_challenge(42, "Intro", "m1"),
        Err(StorageError::Violated(Constraint::UniqueChallengeName))
    );
    assert_eq!(
        db.check_challenge(41, "Other", "m1"),
        Err(StorageError::Violated(Constraint::UniqueChallengeId))
    );
}

#[test]
fn flag_marks_module_as_imported() {
    let mut db = DB::empty();
    assert_eq!(db.check_flag("m1", "aa"), Ok(()));
    assert_eq!(db.insert_flag("m1", "aa"), Ok(()));
    assert!(db.flag_exists("m1"));
    assert_eq!(db.flag_of("m1"), Some(text("aa")));
    assert_eq!(db.imported_modules(), vec![text("m1")]);
}

#[test]
fn flag_is_never_replaced() {
    let mut db = DB::empty();
    assert_eq!(db.insert_flag("m1", "aa"), Ok(()));
    assert_eq!(
        db.check_flag("m1", "bb"),
        Err(StorageError::Violated(Constraint::UniqueModule))
    );
    assert_eq!(
        db.insert_flag("m1", "bb"),
        Err(StorageError::Violated(Constraint::UniqueModule))
    );
    assert_eq!(db.flag_of("m1"), Some(text("aa")));
    assert_eq!(db.imported_modules(), vec![text("m1")]);
}

#[test]
fn modules_are_listed_in_order_of_import() {
    let mut db = DB::empty();
    assert_eq!(db.insert_flag("zeta", "01"), Ok(()));
    assert_eq!(db.insert_flag("alpha", "02"), Ok(()));
    assert_eq!(db.insert_flag("mid", "03"), Ok(()));
    assert_eq!(db.imported_modules(), vec![text("zeta"), text("alpha"), text("mid")]);
}

#[test]
fn solve_joins_a_known_user_and_a_known_challenge() {
    let mut db = DB::empty();
    assert_eq!(db.insert_user("alice", 1), Ok(1));
    assert_eq!(db.insert_challenge(10, "Intro", "m1"), Ok(()));
    assert_eq!(db.check_solve(1, 10), Ok(()));
    assert!(!db.has_solve(1, 10));
    assert_eq!(db.insert_solve(1, 10), Ok(()));
    assert!(db.has_solve(1, 10));
    assert!(!db.has_solve(10, 1));
}

#[test]
fn solve_of_unknown_user_is_refused() {
    let mut db = DB::empty();
    assert_eq!(db.insert_challenge(10, "Intro", "m1"), Ok(()));
    assert_eq!(
        db.insert_solve(1, 10),
        Err(StorageError::Violated(Constraint::SolveUser))
    );
    assert!(!db.has_solve(1, 10));
}

#[test]
fn solve_of_unknown_challenge_is_refused() {
    let mut db = DB::empty();
    assert_eq!(db.insert_user("alice", 1), Ok(1));
    assert_eq!(
        db.insert_solve(1, 10),
        Err(StorageError::Violated(Constraint::SolveChallenge))
    );
}

#[test]
fn solve_is_recorded_once() {
    let mut db = DB::empty();
    assert_eq!(db.insert_user("alice", 1), Ok(1));
    assert_eq!(db.insert_challenge(10, "Intro", "m1"), Ok(()));
    assert_eq!(db.insert_solve(1, 10), Ok(()));
    assert_eq!(
        db.insert_solve(1, 10),
        Err(StorageError::Violated(Constraint::UniqueSolve))
    );
    assert_eq!(
        db.check_solve(1, 10),
        Err(StorageError::Violated(Constraint::UniqueSolve))
    );
    assert!(db.has_solve(1, 10));
}

#[test]
fn one_user_solves_several_challenges() {
    let mut db = DB::empty();
    assert_eq!(db.insert_user("alice", 1), Ok(1));
    assert_eq!(db.insert_user("bob", 2), Ok(2));
    assert_eq!(db.insert_challenge(10, "Intro", "m1"), Ok(()));
    assert_eq!(db.insert_challenge(11, "Basics", "m1"), Ok(()));
    assert_eq!(db.insert_solve(1, 10), Ok(()));
    assert_eq!(db.insert_solve(1, 11), Ok(()));
    assert_eq!(db.insert_solve(2, 11), Ok(()));
    assert!(db.has_solve(1, 10));
    assert!(db.has_solve(1, 11));
    assert!(db.has_solve(2, 11));
    assert!(!db.has_solve(2, 10));
}

#[test]
fn store_is_rebuilt_from_its_rows() {
    let users = vec![(1, text("alice")), (2, text("bob"))];
    let challenges = vec![(10, text("Intro"), text("m1")), (11, text("Basics"), text("m1"))];
    let solves = vec![(1, 10), (2, 11)];
    let flags = vec![(text("m1"), text("abcd"))];
    let db = DB::new(&users, &challenges, &solves, &flags).unwrap();
    assert_eq!(db.user_id("alice"), Some(1));
    assert_eq!(db.user_id("bob"), Some(2));
    assert_eq!(db.challenge_id("Intro"), Some(10));
    assert_eq!(db.challenge_id("Basics"), Some(11));
    assert_eq!(db.module_of("Basics"), Some(text("m1")));
    assert!(db.has_solve(1, 10));
    assert!(db.has_solve(2, 11));
    assert!(!db.has_solve(1, 11));
    assert_eq!(db.flag_of("m1"), Some(text("abcd")));
    assert_eq!(db.imported_modules(), vec![text("m1")]);
}

#[test]
fn rebuilt_store_equals_the_one_kept_live() {
    let mut live = DB::empty();
    let mut users = Vec::new();
    let mut challenges = Vec::new();
    let mut solves = Vec::new();
    let mut flags = Vec::new();
    // Rows reach the tables in the order of the calls, mixed over the tables.
    assert_eq!(live.insert_challenge(10, "Intro", "m1"), Ok(()));
    challenges.push((10, text("Intro"), text("m1")));
    assert_eq!(live.insert_flag("m1", "f1"), Ok(()));
    flags.push((text("m1"), text("f1")));
    assert_eq!(live.insert_user("alice", 1), Ok(1));
    users.push((1, text("alice")));
    assert_eq!(live.insert_solve(1, 10), Ok(()));
    solves.push((1, 10));
    assert_eq!(live.insert_challenge(11, "Basics", "m2"), Ok(()));
    challenges.push((11, text("Basics"), text("m2")));
    assert_eq!(live.insert_user("bob", 2), Ok(2));
    users.push((2, text("bob")));
    assert_eq!(live.insert_solve(2, 11), Ok(()));
    solves.push((2, 11));
    assert_eq!(live.insert_flag("m2", "f2"), Ok(()));
    flags.push((text("m2"), text("f2")));

    let rebuilt = DB::new(&users, &challenges, &solves, &flags).unwrap();
    for name in ["alice", "bob", "carol"] {
        assert_eq!(rebuilt.user_id(name), live.user_id(name));
    }
    for name in ["Intro", "Basics", "Other"] {
        assert_eq!(rebuilt.challenge_id(name), live.challenge_id(name));
        assert_eq!(rebuilt.module_of(name), live.module_of(name));
    }
    for module in ["m1", "m2", "m3"] {
        assert_eq!(rebuilt.flag_of(module), live.flag_of(module));
    }
    for user in 0..4 {
        for challenge in 9..13 {
            assert_eq!(rebuilt.has_solve(user, challenge), live.has_solve(user, challenge));
        }
    }
    assert_eq!(rebuilt.imported_modules(), live.imported_modules());
}

#[test]
fn rows_that_break_the_schema_are_not_loaded() {
    let none_u: Vec<(i64, String)> = Vec::new();
    let none_c: Vec<(i64, String, String)> = Vec::new();
    let none_s: Vec<(i64, i64)> = Vec::new();
    let none_f: Vec<(String, String)> = Vec::new();

    let twice = vec![(1, text("alice")), (2, text("alice"))];
    assert_eq!(
        DB::new(&twice, &none_c, &none_s, &none_f).err(),
        Some(StorageError::Violated(Constraint::UniqueUsername))
    );
    let dangling = vec![(1, 10)];
    assert_eq!(
        DB::new(&none_u, &none_c, &dangling, &none_f).err(),
        Some(StorageError::Violated(Constraint::SolveUser))
    );
    let flags = vec![(text("m1"), text("a")), (text("m1"), text("b"))];
    assert_eq!(
        DB::new(&none_u, &none_c, &none_s, &flags).err(),
        Some(StorageError::Violated(Constraint::UniqueModule))
    );
    let names = vec![(1, text("Intro"), text("m1")), (2, text("Intro"), text("m1"))];
    assert_eq!(
        DB::new(&none_u, &names, &none_s, &none_f).err(),
        Some(StorageError::Violated(Constraint::UniqueChallengeName))
    );
}

#[test]
fn fill_keeps_the_rows_before_the_refused_one() {
    let mut db = DB::empty();
    let users = vec![(1, text("alice")), (1, text("bob")), (3, text("carol"))];
    let res = db.fill_local_db(&users, &Vec::new(), &Vec::new(), &Vec::new());
    assert_eq!(res, Err(StorageError::Violated(Constraint::UniqueUserId)));
    assert!(db.user_exists("alice"));
    assert!(!db.user_exists("bob"));
    assert!(!db.user_exists("carol"));
}

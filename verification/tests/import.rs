use ctfd_pwn_college::db::{StorageError, DB};
use ctfd_pwn_college::import::{
    import_challenges_from_module, ImportAction, ImportError, ImportEvent, ModuleImport,
};
use ctfd_pwn_college::index::Constraint;
use ctfd_pwn_college::remote::RemoteApiError;

fn text(s: &str) -> String {
    String::from(s)
}

fn names(list: &[&str]) -> Vec<String> {
    list.iter().map(|s| text(s)).collect()
}

/// Drives an import of `m1` with the challenges `Intro` and `Basics`, which
/// the challenge platform files under 41 and 42, and returns the flag that was
/// handed out.
fn import_m1(db: &mut DB) -> String {
    let mut run = ModuleImport::new("m1");
    assert_eq!(
        import_challenges_from_module(db, &mut run, ImportEvent::Start),
        ImportAction::ListChallenges { module: text("m1") }
    );
    assert_eq!(
        import_challenges_from_module(
            db,
            &mut run,
            ImportEvent::Challenges(names(&["Intro", "Basics"]))
        ),
        ImportAction::ResolveModuleName { module: text("m1") }
    );
    let flag = match import_challenges_from_module(
        db,
        &mut run,
        ImportEvent::ModuleName(text("Module One")),
    ) {
        ImportAction::CreateChallenge { name, category, flag } => {
            assert_eq!(name, "Intro");
            assert_eq!(category, "Module One");
            flag
        }
        other => panic!("unexpected request: {:?}", other),
    };
    assert_eq!(
        import_challenges_from_module(db, &mut run, ImportEvent::Created(41)),
        ImportAction::StoreChallenge { id: 41, name: text("Intro"), module: text("m1") }
    );
    assert_eq!(db.challenge_id("Intro"), None);
    assert_eq!(
        import_challenges_from_module(db, &mut run, ImportEvent::ChallengeStored),
        ImportAction::CreateChallenge {
            name: text("Basics"),
            category: text("Module One"),
            flag: flag.clone(),
        }
    );
    assert_eq!(db.challenge_id("Intro"), Some(41));
    assert_eq!(
        import_challenges_from_module(db, &mut run, ImportEvent::Created(42)),
        ImportAction::StoreChallenge { id: 42, name: text("Basics"), module: text("m1") }
    );
    // The flag is asked for only after every challenge is on record.
    assert_eq!(
        import_challenges_from_module(db, &mut run, ImportEvent::ChallengeStored),
        ImportAction::StoreFlag { module: text("m1"), flag: flag.clone() }
    );
    assert!(!db.flag_exists("m1"));
    assert!(!run.is_done());
    assert_eq!(
        import_challenges_from_module(db, &mut run, ImportEvent::FlagStored),
        ImportAction::Finished(Ok(()))
    );
    assert!(run.is_done());
    flag
}

#[test]
fn import_files_the_challenges_and_one_flag() {
    let mut db = DB::empty();
    let flag = import_m1(&mut db);
    assert_eq!(db.challenge_id("Intro"), Some(41));
    assert_eq!(db.challenge_id("Basics"), Some(42));
    assert_eq!(db.module_of("Intro"), Some(text("m1")));
    assert_eq!(db.module_of("Basics"), Some(text("m1")));
    assert!(db.flag_exists("m1"));
    assert_eq!(db.flag_of("m1"), Some(flag.clone()));
    assert_eq!(flag.len(), 64);
    assert!(flag.chars().all(|c| matches!(c, '0'..='9' | 'a'..='f')));
    assert_eq!(db.imported_modules(), vec![text("m1")]);
}

#[test]
fn second_import_is_rejected_at_once() {
    let mut db = DB::empty();
    let flag = import_m1(&mut db);
    let mut again = ModuleImport::new("m1");
    assert_eq!(
        import_challenges_from_module(&mut db, &mut again, ImportEvent::Start),
        ImportAction::Finished(Err(ImportError::AlreadyImported))
    );
    assert!(again.is_done());
    assert_eq!(db.flag_of("m1"), Some(flag));
    assert_eq!(db.challenge_id("Intro"), Some(41));
    assert_eq!(db.challenge_id("Basics"), Some(42));
    assert_eq!(db.imported_modules(), vec![text("m1")]);
}

#[test]
fn given_flag_is_handed_out_unchanged() {
    let mut db = DB::empty();
    let mut run = ModuleImport::with_flag("m1", text("c0ffee"));
    import_challenges_from_module(&mut db, &mut run, ImportEvent::Start);
    import_challenges_from_module(&mut db, &mut run, ImportEvent::Challenges(names(&["Intro"])));
    assert_eq!(
        import_challenges_from_module(&mut db, &mut run, ImportEvent::ModuleName(text("One"))),
        ImportAction::CreateChallenge {
            name: text("Intro"),
            category: text("One"),
            flag: text("c0ffee"),
        }
    );
}

#[test]
fn module_without_challenges_gets_its_flag() {
    let mut db = DB::empty();
    let mut run = ModuleImport::with_flag("m0", text("ab"));
    import_challenges_from_module(&mut db, &mut run, ImportEvent::Start);
    import_challenges_from_module(&mut db, &mut run, ImportEvent::Challenges(Vec::new()));
    assert_eq!(
        import_challenges_from_module(&mut db, &mut run, ImportEvent::ModuleName(text("Zero"))),
        ImportAction::StoreFlag { module: text("m0"), flag: text("ab") }
    );
    assert_eq!(
        import_challenges_from_module(&mut db, &mut run, ImportEvent::FlagStored),
        ImportAction::Finished(Ok(()))
    );
    assert_eq!(db.flag_of("m0"), Some(text("ab")));
}

#[test]
fn challenge_name_that_is_taken_ends_the_import_without_a_flag() {
    let mut db = DB::empty();
    assert_eq!(db.insert_challenge(41, "Intro", "m0"), Ok(()));
    let mut run = ModuleImport::with_flag("m1", text("ab"));
    import_challenges_from_module(&mut db, &mut run, ImportEvent::Start);
    import_challenges_from_module(&mut db, &mut run, ImportEvent::Challenges(names(&["Intro"])));
    import_challenges_from_module(&mut db, &mut run, ImportEvent::ModuleName(text("One")));
    // The platform hands back the id of the challenge that exists.
    assert_eq!(
        import_challenges_from_module(&mut db, &mut run, ImportEvent::Created(41)),
        ImportAction::Finished(Err(ImportError::Storage {
            challenge: Some(text("Intro")),
            error: StorageError::Violated(Constraint::UniqueChallengeName),
        }))
    );
    assert!(run.is_done());
    assert!(!db.flag_exists("m1"));
    assert_eq!(db.module_of("Intro"), Some(text("m0")));
}

#[test]
fn remote_failure_ends_the_import() {
    let mut db = DB::empty();
    let mut run = ModuleImport::with_flag("m1", text("ab"));
    import_challenges_from_module(&mut db, &mut run, ImportEvent::Start);
    assert_eq!(
        import_challenges_from_module(
            &mut db,
            &mut run,
            ImportEvent::RemoteFailed(RemoteApiError::NotFound)
        ),
        ImportAction::Finished(Err(ImportError::RemoteApi {
            challenge: None,
            error: RemoteApiError::NotFound,
        }))
    );
    assert!(!db.flag_exists("m1"));
}

#[test]
fn failure_of_the_persisted_store_keeps_earlier_challenges() {
    let mut db = DB::empty();
    let mut run = ModuleImport::with_flag("m1", text("ab"));
    import_challenges_from_module(&mut db, &mut run, ImportEvent::Start);
    import_challenges_from_module(
        &mut db,
        &mut run,
        ImportEvent::Challenges(names(&["Intro", "Basics"])),
    );
    import_challenges_from_module(&mut db, &mut run, ImportEvent::ModuleName(text("One")));
    import_challenges_from_module(&mut db, &mut run, ImportEvent::Created(41));
    import_challenges_from_module(&mut db, &mut run, ImportEvent::ChallengeStored);
    import_challenges_from_module(&mut db, &mut run, ImportEvent::Created(42));
    assert_eq!(
        import_challenges_from_module(&mut db, &mut run, ImportEvent::StoreFailed(text("locked"))),
        ImportAction::Finished(Err(ImportError::Storage {
            challenge: Some(text("Basics")),
            error: StorageError::Engine(text("locked")),
        }))
    );
    assert_eq!(db.challenge_id("Intro"), Some(41));
    assert_eq!(db.challenge_id("Basics"), None);
    assert!(!db.flag_exists("m1"));
}

#[test]
fn import_event_that_answers_nothing_ends_the_import() {
    let mut db = DB::empty();
    let mut run = ModuleImport::with_flag("m1", text("ab"));
    assert_eq!(
        import_challenges_from_module(&mut db, &mut run, ImportEvent::FlagStored),
        ImportAction::Finished(Err(ImportError::OutOfOrder))
    );
    assert!(run.is_done());
    assert!(!db.flag_exists("m1"));
}

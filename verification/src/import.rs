//! The first import of a module, one event at a time.
//!
//! A module is imported once. Its challenges are created on the challenge
//! platform and filed locally under the ids they got there; the flag they
//! share is filed last, and marks the module as imported. The import itself
//! sends and stores nothing. It says what is to be done next; the driver does
//! it and reports the outcome as the next event.

use crate::db::{texts, StorageError, DB};
use crate::flag::{generate_flag, is_flag};
use crate::import_model::{
    import_step, seek_create, ImportActionView, ImportErrorView, ImportEventView,
    ImportOutcome, ImportStep, ImportView,
};
use crate::remote::RemoteApiError;
use crate::sync::opt_text;
use vstd::prelude::*;
use vstd::string::*;

verus! {

/// Why an import ended early. Rows stored before the failure stay.
#[allow(inconsistent_fields)]
#[derive(Debug, PartialEq, Eq)]
pub enum ImportError {
    /// The module has a flag: it was imported before.
    AlreadyImported,
    /// A platform could not be asked, or did not give what was asked for.
    /// `challenge` is the challenge that was being created, if any.
    RemoteApi { challenge: Option<String>, error: RemoteApiError },
    /// The schema refuses the row, or the persisted store failed.
    /// `challenge` is the challenge that was being filed, if any.
    Storage { challenge: Option<String>, error: StorageError },
    /// The reported event does not answer what was asked for.
    OutOfOrder,
}

/// What the driver reports.
#[derive(Debug, PartialEq, Eq)]
pub enum ImportEvent {
    /// The import is to begin.
    Start,
    /// The names of the module's challenges, as the upstream platform lists
    /// them.
    Challenges(Vec<String>),
    /// The display name of the module.
    ModuleName(String),
    /// The id of the challenge on the challenge platform, where it was
    /// created now or existed before.
    Created(i64),
    /// The persisted store filed the challenge it was asked to file.
    ChallengeStored,
    /// The persisted store filed the flag it was asked to file.
    FlagStored,
    /// A platform could not be asked, or did not give what was asked for.
    RemoteFailed(RemoteApiError),
    /// The persisted store failed; the text is its report.
    StoreFailed(String),
}

/// What the driver is asked to do next.
#[derive(Debug, PartialEq, Eq)]
pub enum ImportAction {
    /// Ask the upstream platform for the names of the module's challenges.
    ListChallenges { module: String },
    /// Ask the upstream platform for the display name of the module.
    ResolveModuleName { module: String },
    /// Create the challenge on the challenge platform, with the flag, unless
    /// one of that name exists; report its id either way.
    CreateChallenge { name: String, category: String, flag: String },
    /// File the challenge in the persisted store.
    StoreChallenge { id: i64, name: String, module: String },
    /// File the module's flag in the persisted store.
    StoreFlag { module: String, flag: String },
    /// Nothing: the import is over, with this result.
    Finished(Result<(), ImportError>),
}

impl View for ImportError {
    type V = ImportErrorView;

    open spec fn view(&self) -> ImportErrorView {
        match *self {
            ImportError::AlreadyImported => ImportErrorView::AlreadyImported,
            ImportError::RemoteApi { challenge, error } => ImportErrorView::RemoteApi {
                challenge: opt_text(challenge),
                error: error@,
            },
            ImportError::Storage { challenge, error } => ImportErrorView::Storage {
                challenge: opt_text(challenge),
                error: error@,
            },
            ImportError::OutOfOrder => ImportErrorView::OutOfOrder,
        }
    }
}

impl View for ImportEvent {
    type V = ImportEventView;

    open spec fn view(&self) -> ImportEventView {
        match *self {
            ImportEvent::Start => ImportEventView::Start,
            ImportEvent::Challenges(names) => ImportEventView::Challenges(texts(names@)),
            ImportEvent::ModuleName(name) => ImportEventView::ModuleName(name@),
            ImportEvent::Created(id) => ImportEventView::Created(id),
            ImportEvent::ChallengeStored => ImportEventView::ChallengeStored,
            ImportEvent::FlagStored => ImportEventView::FlagStored,
            ImportEvent::RemoteFailed(error) => ImportEventView::RemoteFailed(error@),
            ImportEvent::StoreFailed(report) => ImportEventView::StoreFailed(report@),
        }
    }
}

/// The result of an import, with its texts taken as characters.
pub open spec fn import_result_view(result: Result<(), ImportError>) -> Result<
    (),
    ImportErrorView,
> {
    match result {
        Ok(_) => Ok(()),
        Err(e) => Err(e@),
    }
}

impl View for ImportAction {
    type V = ImportActionView;

    open spec fn view(&self) -> ImportActionView {
        match *self {
            ImportAction::ListChallenges { module } => ImportActionView::ListChallenges {
                module: module@,
            },
            ImportAction::ResolveModuleName { module } => ImportActionView::ResolveModuleName {
                module: module@,
            },
            ImportAction::CreateChallenge { name, category, flag } => ImportActionView::CreateChallenge {
                name: name@,
                category: category@,
                flag: flag@,
            },
            ImportAction::StoreChallenge { id, name, module } => ImportActionView::StoreChallenge {
                id,
                name: name@,
                module: module@,
            },
            ImportAction::StoreFlag { module, flag } => ImportActionView::StoreFlag {
                module: module@,
                flag: flag@,
            },
            ImportAction::Finished(result) => ImportActionView::Finished(
                import_result_view(result),
            ),
        }
    }
}

/// An import of one module: what it was given and how far it has come.
pub struct ModuleImport {
    step: ImportStep,
    module: String,
    flag: String,
    category: String,
    challenges: Vec<String>,
    challenge: usize,
    remote_id: i64,
}

impl View for ModuleImport {
    type V = ImportView;

    closed spec fn view(&self) -> ImportView {
        ImportView {
            step: self.step,
            module: self.module@,
            flag: self.flag@,
            category: self.category@,
            challenges: texts(self.challenges@),
            challenge: self.challenge as int,
            remote_id: self.remote_id,
        }
    }
}

impl ModuleImport {
    /// The place of the current challenge points into the list where the
    /// step needs it.
    pub open spec fn wf(&self) -> bool {
        self@.wf()
    }

    /// An import of `module` that has not started and will hand out the
    /// given flag.
    pub fn with_flag(module: &str, flag: String) -> (run: ModuleImport)
        ensures
            run.wf(),
            run@ == ImportView::idle(module@, flag@),
    {
        let run = ModuleImport {
            step: ImportStep::Idle,
            module: String::from_str(module),
            flag,
            category: String::new(),
            challenges: Vec::new(),
            challenge: 0,
            remote_id: 0,
        };
        proof {
            assert(run@.challenges =~= Seq::empty());
        }
        run
    }

    /// An import of `module` that has not started and will hand out a fresh
    /// random flag.
    pub fn new(module: &str) -> (run: ModuleImport)
        ensures
            run.wf(),
            is_flag(run@.flag),
            run@ == ImportView::idle(module@, run@.flag),
    {
        ModuleImport::with_flag(module, generate_flag())
    }

    /// Whether the import is over.
    pub fn is_done(&self) -> (done: bool)
        ensures
            done == (self@.step == ImportStep::Done),
    {
        self.step == ImportStep::Done
    }

    /// The challenge that the import is busy with, if any.
    fn current(&self) -> (name: Option<String>)
        requires
            self.wf(),
        ensures
            opt_text(name) == self@.current(),
    {
        if self.step == ImportStep::Created || self.step == ImportStep::ChallengeStored {
            Some(self.challenges[self.challenge].clone())
        } else {
            None
        }
    }

    /// Ends the import with the given failure.
    fn fail(&mut self, error: ImportError) -> (action: ImportAction)
        ensures
            final(self)@ == old(self)@.done(),
            action@ == ImportActionView::Finished(Err(error@)),
    {
        self.step = ImportStep::Done;
        ImportAction::Finished(Err(error))
    }

    /// Ends the import because a row cannot be stored.
    fn refuse(&mut self, error: StorageError) -> (action: ImportAction)
        requires
            old(self).wf(),
        ensures
            final(self)@ == old(self)@.done(),
            action@ == ImportActionView::Finished(
                Err(ImportErrorView::Storage { challenge: old(self)@.current(), error: error@ }),
            ),
    {
        let challenge = self.current();
        self.fail(ImportError::Storage { challenge, error })
    }

    /// Asks to create the challenge at place `at`; past the last challenge,
    /// asks to file the flag.
    fn seek_create(&mut self, db: &DB, at: usize) -> (action: ImportAction)
        requires
            old(self).wf(),
        ensures
            final(self).wf(),
            (ImportOutcome { index: db@, run: final(self)@, action: action@ }) == seek_create(
                db@,
                old(self)@,
                at as int,
            ),
    {
        if at < self.challenges.len() {
            self.step = ImportStep::Created;
            self.challenge = at;
            ImportAction::CreateChallenge {
                name: self.challenges[at].clone(),
                category: self.category.clone(),
                flag: self.flag.clone(),
            }
        } else {
            self.step = ImportStep::FlagStored;
            self.challenge = self.challenges.len();
            match db.check_flag(self.module.as_str(), self.flag.as_str()) {
                Ok(_) => ImportAction::StoreFlag {
                    module: self.module.clone(),
                    flag: self.flag.clone(),
                },
                Err(error) => self.refuse(error),
            }
        }
    }
}

/// Takes the import of a module one step further: applies what the driver
/// reports to the store and to the import, and says what the driver is to do
/// next.
pub fn import_challenges_from_module(db: &mut DB, run: &mut ModuleImport, event: ImportEvent) -> (action:
    ImportAction)
    requires
        old(db).wf(),
        old(run).wf(),
    ensures
        final(db).wf(),
        final(run).wf(),
        (ImportOutcome { index: final(db)@, run: final(run)@, action: action@ }) == import_step(
            old(db)@,
            old(run)@,
            event@,
        ),
{
    match event {
        ImportEvent::Start => {
            if run.step == ImportStep::Idle {
                if db.flag_exists(run.module.as_str()) {
                    run.fail(ImportError::AlreadyImported)
                } else {
                    run.step = ImportStep::Challenges;
                    ImportAction::ListChallenges { module: run.module.clone() }
                }
            } else {
                run.fail(ImportError::OutOfOrder)
            }
        },
        ImportEvent::Challenges(names) => {
            if run.step == ImportStep::Challenges {
                run.challenges = names;
                run.challenge = 0;
                run.step = ImportStep::ModuleName;
                ImportAction::ResolveModuleName { module: run.module.clone() }
            } else {
                run.fail(ImportError::OutOfOrder)
            }
        },
        ImportEvent::ModuleName(name) => {
            if run.step == ImportStep::ModuleName {
                run.category = name;
                run.seek_create(db, 0)
            } else {
                run.fail(ImportError::OutOfOrder)
            }
        },
        ImportEvent::Created(id) => {
            if run.step == ImportStep::Created {
                match db.check_challenge(
                    id,
                    run.challenges[run.challenge].as_str(),
                    run.module.as_str(),
                ) {
                    Ok(_) => {
                        run.step = ImportStep::ChallengeStored;
                        run.remote_id = id;
                        ImportAction::StoreChallenge {
                            id,
                            name: run.challenges[run.challenge].clone(),
                            module: run.module.clone(),
                        }
                    },
                    Err(error) => run.refuse(error),
                }
            } else {
                run.fail(ImportError::OutOfOrder)
            }
        },
        ImportEvent::ChallengeStored => {
            if run.step == ImportStep::ChallengeStored {
                match db.insert_challenge(
                    run.remote_id,
                    run.challenges[run.challenge].as_str(),
                    run.module.as_str(),
                ) {
                    Ok(_) => {
                        assert(run.challenge < run.challenges.len());
                        let next = run.challenge + 1;
                        run.seek_create(db, next)
                    },
                    Err(error) => run.refuse(error),
                }
            } else {
                run.fail(ImportError::OutOfOrder)
            }
        },
        ImportEvent::FlagStored => {
            if run.step == ImportStep::FlagStored {
                match db.insert_flag(run.module.as_str(), run.flag.as_str()) {
                    Ok(_) => {
                        run.step = ImportStep::Done;
                        ImportAction::Finished(Ok(()))
                    },
                    Err(error) => run.refuse(error),
                }
            } else {
                run.fail(ImportError::OutOfOrder)
            }
        },
        ImportEvent::RemoteFailed(error) => {
            if run.step == ImportStep::Challenges || run.step == ImportStep::ModuleName || run.step
                == ImportStep::Created {
                let challenge = run.current();
                run.fail(ImportError::RemoteApi { challenge, error })
            } else {
                run.fail(ImportError::OutOfOrder)
            }
        },
        ImportEvent::StoreFailed(report) => {
            if run.step == ImportStep::ChallengeStored || run.step == ImportStep::FlagStored {
                run.refuse(StorageError::Engine(report))
            } else {
                run.fail(ImportError::OutOfOrder)
            }
        },
    }
}

} // verus!

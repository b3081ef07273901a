//! The first import of a module, as mathematics: what the store and the run
//! look like after each reported event, and what is asked for next.

use crate::db::StorageErrorView;
use crate::index::Index;
use crate::remote::RemoteApiErrorView;
use vstd::prelude::*;

verus! {

/// What an import waits for.
#[derive(Clone, Copy, Debug, PartialEq, Eq, Structural)]
pub enum ImportStep {
    /// Nothing yet: the import has not started.
    Idle,
    /// The names of the module's challenges.
    Challenges,
    /// The display name of the module.
    ModuleName,
    /// The id that the challenge platform gave the current challenge.
    Created,
    /// Word that the persisted store filed the current challenge.
    ChallengeStored,
    /// Word that the persisted store filed the module's flag.
    FlagStored,
    /// Nothing any more: the import is over.
    Done,
}

/// Why an import ended early.
#[allow(inconsistent_fields)]
pub enum ImportErrorView {
    /// The module has a flag: it was imported before.
    AlreadyImported,
    /// A platform could not be asked, or did not give what was asked for.
    /// `challenge` is the challenge that was being created, if any.
    RemoteApi { challenge: Option<Seq<char>>, error: RemoteApiErrorView },
    /// The schema refuses the row, or the persisted store failed.
    /// `challenge` is the challenge that was being filed, if any.
    Storage { challenge: Option<Seq<char>>, error: StorageErrorView },
    /// The reported event does not answer what was asked for.
    OutOfOrder,
}

/// What the driver reports.
pub enum ImportEventView {
    /// The import is to begin.
    Start,
    /// The names of the module's challenges, as the upstream platform lists
    /// them.
    Challenges(Seq<Seq<char>>),
    /// The display name of the module.
    ModuleName(Seq<char>),
    /// The id of the challenge on the challenge platform, where it was
    /// created now or existed before.
    Created(i64),
    /// The persisted store filed the challenge it was asked to file.
    ChallengeStored,
    /// The persisted store filed the flag it was asked to file.
    FlagStored,
    /// A platform could not be asked, or did not give what was asked for.
    RemoteFailed(RemoteApiErrorView),
    /// The persisted store failed; the text is its report.
    StoreFailed(Seq<char>),
}

/// What the driver is asked to do next.
pub enum ImportActionView {
    /// Ask the upstream platform for the names of the module's challenges.
    ListChallenges { module: Seq<char> },
    /// Ask the upstream platform for the display name of the module.
    ResolveModuleName { module: Seq<char> },
    /// Create the challenge on the challenge platform, with the flag, unless
    /// one of that name exists; report its id either way.
    CreateChallenge { name: Seq<char>, category: Seq<char>, flag: Seq<char> },
    /// File the challenge in the persisted store.
    StoreChallenge { id: i64, name: Seq<char>, module: Seq<char> },
    /// File the module's flag in the persisted store.
    StoreFlag { module: Seq<char>, flag: Seq<char> },
    /// Nothing: the import is over, with this result.
    Finished(Result<(), ImportErrorView>),
}

/// Where an import stands.
pub struct ImportView {
    pub step: ImportStep,
    /// The upstream id of the module.
    pub module: Seq<char>,
    /// The flag that the module's challenges will share.
    pub flag: Seq<char>,
    /// The display name of the module, under which its challenges are filed
    /// on the challenge platform.
    pub category: Seq<char>,
    /// The names of the module's challenges.
    pub challenges: Seq<Seq<char>>,
    /// Place of the current challenge in `challenges`.
    pub challenge: int,
    /// Id of the current challenge on the challenge platform.
    pub remote_id: i64,
}

/// The store, the import and the request after an event.
pub struct ImportOutcome {
    pub index: Index,
    pub run: ImportView,
    pub action: ImportActionView,
}

impl ImportView {
    /// An import of `module` that has not started.
    pub open spec fn idle(module: Seq<char>, flag: Seq<char>) -> ImportView {
        ImportView {
            step: ImportStep::Idle,
            module,
            flag,
            category: Seq::empty(),
            challenges: Seq::empty(),
            challenge: 0,
            remote_id: 0,
        }
    }

    /// The place of the current challenge points into the list where the
    /// step needs it.
    pub open spec fn wf(self) -> bool {
        &&& 0 <= self.challenge <= self.challenges.len()
        &&& (self.step == ImportStep::Created || self.step == ImportStep::ChallengeStored)
            ==> self.challenge < self.challenges.len()
    }

    /// The challenge that the import is busy with, if any.
    pub open spec fn current(self) -> Option<Seq<char>> {
        if self.step == ImportStep::Created || self.step == ImportStep::ChallengeStored {
            Some(self.challenges[self.challenge])
        } else {
            None
        }
    }

    /// The import, over.
    pub open spec fn done(self) -> ImportView {
        ImportView { step: ImportStep::Done, ..self }
    }
}

/// The import ends with the given result.
pub open spec fn import_finish(index: Index, run: ImportView, result: Result<(), ImportErrorView>)
    -> ImportOutcome {
    ImportOutcome { index, run: run.done(), action: ImportActionView::Finished(result) }
}

/// The import ends because the schema refuses a row.
pub open spec fn import_refused(index: Index, run: ImportView, error: StorageErrorView)
    -> ImportOutcome {
    import_finish(index, run, Err(ImportErrorView::Storage { challenge: run.current(), error }))
}

/// Asks to create the challenge at place `at`; past the last challenge, asks
/// to file the flag, which closes the import.
pub open spec fn seek_create(index: Index, run: ImportView, at: int) -> ImportOutcome {
    if 0 <= at < run.challenges.len() {
        ImportOutcome {
            index,
            run: ImportView { step: ImportStep::Created, challenge: at, ..run },
            action: ImportActionView::CreateChallenge {
                name: run.challenges[at],
                category: run.category,
                flag: run.flag,
            },
        }
    } else {
        let last = ImportView {
            step: ImportStep::FlagStored,
            challenge: run.challenges.len() as int,
            ..run
        };
        match index.insert_flag(run.module, run.flag) {
            Ok(_) => ImportOutcome {
                index,
                run: last,
                action: ImportActionView::StoreFlag { module: run.module, flag: run.flag },
            },
            Err(rule) => import_refused(index, last, StorageErrorView::Violated(rule)),
        }
    }
}

/// The store, the import and the request after `event`.
pub open spec fn import_step(index: Index, run: ImportView, event: ImportEventView)
    -> ImportOutcome {
    match (run.step, event) {
        (ImportStep::Idle, ImportEventView::Start) => if index.flags.contains_key(run.module) {
            import_finish(index, run, Err(ImportErrorView::AlreadyImported))
        } else {
            ImportOutcome {
                index,
                run: ImportView { step: ImportStep::Challenges, ..run },
                action: ImportActionView::ListChallenges { module: run.module },
            }
        },
        (ImportStep::Challenges, ImportEventView::Challenges(challenges)) => ImportOutcome {
            index,
            run: ImportView { step: ImportStep::ModuleName, challenges, challenge: 0, ..run },
            action: ImportActionView::ResolveModuleName { module: run.module },
        },
        (ImportStep::ModuleName, ImportEventView::ModuleName(category)) => seek_create(
            index,
            ImportView { category, ..run },
            0,
        ),
        (ImportStep::Created, ImportEventView::Created(id)) => match index.insert_challenge(
            id,
            run.challenges[run.challenge],
            run.module,
        ) {
            Ok(_) => ImportOutcome {
                index,
                run: ImportView { step: ImportStep::ChallengeStored, remote_id: id, ..run },
                action: ImportActionView::StoreChallenge {
                    id,
                    name: run.challenges[run.challenge],
                    module: run.module,
                },
            },
            Err(rule) => import_refused(index, run, StorageErrorView::Violated(rule)),
        },
        (ImportStep::ChallengeStored, ImportEventView::ChallengeStored) => match index.insert_challenge(
            run.remote_id,
            run.challenges[run.challenge],
            run.module,
        ) {
            Ok(next) => seek_create(next, run, run.challenge + 1),
            Err(rule) => import_refused(index, run, StorageErrorView::Violated(rule)),
        },
        (ImportStep::FlagStored, ImportEventView::FlagStored) => match index.insert_flag(
            run.module,
            run.flag,
        ) {
            Ok(next) => import_finish(next, run, Ok(())),
            Err(rule) => import_refused(index, run, StorageErrorView::Violated(rule)),
        },
        (ImportStep::Challenges, ImportEventView::RemoteFailed(error)) => import_finish(
            index,
            run,
            Err(ImportErrorView::RemoteApi { challenge: run.current(), error }),
        ),
        (ImportStep::ModuleName, ImportEventView::RemoteFailed(error)) => import_finish(
            index,
            run,
            Err(ImportErrorView::RemoteApi { challenge: run.current(), error }),
        ),
        (ImportStep::Created, ImportEventView::RemoteFailed(error)) => import_finish(
            index,
            run,
            Err(ImportErrorView::RemoteApi { challenge: run.current(), error }),
        ),
        (ImportStep::ChallengeStored, ImportEventView::StoreFailed(report)) => import_refused(
            index,
            run,
            StorageErrorView::Engine(report),
        ),
        (ImportStep::FlagStored, ImportEventView::StoreFailed(report)) => import_refused(
            index,
            run,
            StorageErrorView::Engine(report),
        ),
        _ => import_finish(index, run, Err(ImportErrorView::OutOfOrder)),
    }
}

} // verus!

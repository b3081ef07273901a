//! The import of new users, as mathematics: what the store and the run look
//! like after each reported event, and what is asked for next.

use crate::db::StorageErrorView;
use crate::index::Index;
use crate::remote::RemoteApiErrorView;
use vstd::prelude::*;

verus! {

/// What a run waits for.
#[derive(Clone, Copy, Debug, PartialEq, Eq, Structural)]
pub enum Step {
    /// Nothing yet: the run has not started.
    Idle,
    /// The challenge platform's list of usernames.
    Users,
    /// The id under which the persisted store filed the current user.
    UserStored,
    /// The upstream platform's list of what the current user solved in the
    /// current module.
    Solves,
    /// The display name of the current solved challenge.
    Name,
    /// Word that the persisted store filed the current solve.
    SolveStored,
    /// Nothing any more: the run is over.
    Done,
}

/// Who and what a failure was about, as far as the run had got.
pub struct ContextView {
    pub user: Option<Seq<char>>,
    pub module: Option<Seq<char>>,
    pub challenge: Option<Seq<char>>,
}

/// Why a run ended early.
#[allow(inconsistent_fields)]
pub enum SyncErrorView {
    /// A platform could not be asked, or did not give what was asked for.
    RemoteApi { context: ContextView, error: RemoteApiErrorView },
    /// The schema refuses the row, or the persisted store failed.
    Storage { context: ContextView, error: StorageErrorView },
    /// A solved challenge resolves to a name that no local challenge has.
    UnresolvedChallenge { context: ContextView, name: Seq<char> },
    /// The reported event does not answer what was asked for.
    OutOfOrder,
}

/// What the driver reports.
pub enum EventView {
    /// The run is to begin.
    Start,
    /// The usernames that the challenge platform lists.
    Users(Seq<Seq<char>>),
    /// The id that the persisted store gave the user it was asked to file.
    UserStored(i64),
    /// The raw ids of the challenges that the upstream platform lists as
    /// solved.
    Solves(Seq<Seq<char>>),
    /// The display name that the upstream platform gives for a raw id.
    Name(Seq<char>),
    /// The persisted store filed the solve it was asked to file.
    SolveStored,
    /// A platform could not be asked, or did not give what was asked for.
    RemoteFailed(RemoteApiErrorView),
    /// The persisted store failed; the text is its report.
    StoreFailed(Seq<char>),
}

/// What the driver is asked to do next.
pub enum ActionView {
    /// Ask the challenge platform for its usernames.
    ListUsers,
    /// File a user in the persisted store.
    StoreUser { username: Seq<char> },
    /// Ask the upstream platform what a user solved in a module of a course.
    ListSolves { course: Seq<char>, module: Seq<char>, username: Seq<char> },
    /// Ask the upstream platform for the display name of a raw id.
    ResolveName { challenge: Seq<char> },
    /// File a solve in the persisted store.
    StoreSolve { user_id: i64, challenge_id: i64 },
    /// Nothing: the run is over, with this result.
    Finished(Result<(), SyncErrorView>),
}

/// Where a run stands.
pub struct RunView {
    pub step: Step,
    /// The usernames that the challenge platform listed.
    pub users: Seq<Seq<char>>,
    /// Place of the current user in `users`.
    pub user: int,
    /// Id of the current user.
    pub user_id: i64,
    /// The modules that were imported when the run began.
    pub modules: Seq<Seq<char>>,
    /// Place of the current module in `modules`.
    pub module: int,
    /// The raw ids that the current user solved in the current module.
    pub solved: Seq<Seq<char>>,
    /// Place of the current raw id in `solved`.
    pub challenge: int,
    /// Local id of the challenge whose solve is being filed.
    pub challenge_id: i64,
}

/// The store, the run and the request after an event.
pub struct Outcome {
    pub index: Index,
    pub run: RunView,
    pub action: ActionView,
}

impl RunView {
    /// A run that has not started.
    pub open spec fn idle() -> RunView {
        RunView {
            step: Step::Idle,
            users: Seq::empty(),
            user: 0,
            user_id: 0,
            modules: Seq::empty(),
            module: 0,
            solved: Seq::empty(),
            challenge: 0,
            challenge_id: 0,
        }
    }

    /// The places point into their lists as far as the step needs them.
    pub open spec fn wf(self) -> bool {
        &&& 0 <= self.user <= self.users.len()
        &&& 0 <= self.module <= self.modules.len()
        &&& 0 <= self.challenge <= self.solved.len()
        &&& (self.step == Step::UserStored || self.step == Step::Solves || self.step == Step::Name
            || self.step == Step::SolveStored) ==> self.user < self.users.len()
        &&& (self.step == Step::Solves || self.step == Step::Name || self.step
            == Step::SolveStored) ==> self.module < self.modules.len()
        &&& (self.step == Step::Name || self.step == Step::SolveStored) ==> self.challenge
            < self.solved.len()
    }

    /// Who and what the run is busy with.
    pub open spec fn context(self) -> ContextView {
        ContextView {
            user: if self.step == Step::UserStored || self.step == Step::Solves || self.step
                == Step::Name || self.step == Step::SolveStored {
                Some(self.users[self.user])
            } else {
                None
            },
            module: if self.step == Step::Solves || self.step == Step::Name || self.step
                == Step::SolveStored {
                Some(self.modules[self.module])
            } else {
                None
            },
            challenge: if self.step == Step::Name || self.step == Step::SolveStored {
                Some(self.solved[self.challenge])
            } else {
                None
            },
        }
    }

    /// The run, over.
    pub open spec fn done(self) -> RunView {
        RunView { step: Step::Done, ..self }
    }
}

/// The course whose modules are mirrored.
pub open spec fn course() -> Seq<char> {
    crate::pwncollege::course()
}

/// The place of the first username at or after `from` that the store does
/// not know, or the length of the list where there is none.
pub open spec fn first_unknown(index: Index, users: Seq<Seq<char>>, from: int) -> int
    decreases users.len() - from,
{
    if from < 0 || from >= users.len() {
        users.len() as int
    } else if !index.users.contains_key(users[from]) {
        from
    } else {
        first_unknown(index, users, from + 1)
    }
}

/// The run ends with the given result.
pub open spec fn finish(index: Index, run: RunView, result: Result<(), SyncErrorView>) -> Outcome {
    Outcome { index, run: run.done(), action: ActionView::Finished(result) }
}

/// Moves on to the first user at or after `from` that the store does not
/// know and asks to file that user; where there is none, the run ends well.
pub open spec fn seek_user(index: Index, run: RunView, from: int) -> Outcome {
    let at = first_unknown(index, run.users, from);
    if at < run.users.len() {
        Outcome {
            index,
            run: RunView { step: Step::UserStored, user: at, ..run },
            action: ActionView::StoreUser { username: run.users[at] },
        }
    } else {
        finish(index, RunView { user: run.users.len() as int, ..run }, Ok(()))
    }
}

/// Asks what the current user solved in the module at place `at`; past the
/// last module, moves on to the next user.
pub open spec fn seek_module(index: Index, run: RunView, at: int) -> Outcome {
    if 0 <= at < run.modules.len() {
        Outcome {
            index,
            run: RunView { step: Step::Solves, module: at, ..run },
            action: ActionView::ListSolves {
                course: course(),
                module: run.modules[at],
                username: run.users[run.user],
            },
        }
    } else {
        seek_user(index, run, run.user + 1)
    }
}

/// Asks for the display name of the solved challenge at place `at`; past the
/// last one, moves on to the next module.
pub open spec fn seek_challenge(index: Index, run: RunView, at: int) -> Outcome {
    if 0 <= at < run.solved.len() {
        Outcome {
            index,
            run: RunView { step: Step::Name, challenge: at, ..run },
            action: ActionView::ResolveName { challenge: run.solved[at] },
        }
    } else {
        seek_module(index, run, run.module + 1)
    }
}

/// The store, the run and the request after `event`.
pub open spec fn sync_step(index: Index, run: RunView, event: EventView) -> Outcome {
    match (run.step, event) {
        (Step::Idle, EventView::Start) => Outcome {
            index,
            run: RunView { step: Step::Users, modules: index.imported, module: 0, ..run },
            action: ActionView::ListUsers,
        },
        (Step::Users, EventView::Users(users)) => seek_user(
            index,
            RunView { users, user: 0, ..run },
            0,
        ),
        (Step::Users, EventView::RemoteFailed(error)) => finish(
            index,
            run,
            Err(SyncErrorView::RemoteApi { context: run.context(), error }),
        ),
        (Step::UserStored, EventView::UserStored(id)) => match index.insert_user(
            run.users[run.user],
            id,
        ) {
            Ok(next) => seek_module(next, RunView { user_id: id, ..run }, 0),
            Err(rule) => finish(
                index,
                run,
                Err(
                    SyncErrorView::Storage {
                        context: run.context(),
                        error: StorageErrorView::Violated(rule),
                    },
                ),
            ),
        },
        (Step::UserStored, EventView::StoreFailed(report)) => finish(
            index,
            run,
            Err(
                SyncErrorView::Storage {
                    context: run.context(),
                    error: StorageErrorView::Engine(report),
                },
            ),
        ),
        (Step::Solves, EventView::Solves(solved)) => seek_challenge(
            index,
            RunView { solved, challenge: 0, ..run },
            0,
        ),
        (Step::Solves, EventView::RemoteFailed(error)) => finish(
            index,
            run,
            Err(SyncErrorView::RemoteApi { context: run.context(), error }),
        ),
        (Step::Name, EventView::Name(name)) => if !index.challenges.contains_key(name) {
            finish(
                index,
                run,
                Err(SyncErrorView::UnresolvedChallenge { context: run.context(), name }),
            )
        } else {
            match index.insert_solve(run.user_id, index.challenges[name]) {
                Ok(_) => Outcome {
                    index,
                    run: RunView {
                        step: Step::SolveStored,
                        challenge_id: index.challenges[name],
                        ..run
                    },
                    action: ActionView::StoreSolve {
                        user_id: run.user_id,
                        challenge_id: index.challenges[name],
                    },
                },
                Err(rule) => finish(
                    index,
                    run,
                    Err(
                    SyncErrorView::Storage {
                        context: run.context(),
                        error: StorageErrorView::Violated(rule),
                    },
                ),
                ),
            }
        },
        (Step::Name, EventView::RemoteFailed(error)) => finish(
            index,
            run,
            Err(SyncErrorView::RemoteApi { context: run.context(), error }),
        ),
        (Step::SolveStored, EventView::SolveStored) => match index.insert_solve(
            run.user_id,
            run.challenge_id,
        ) {
            Ok(next) => seek_challenge(next, run, run.challenge + 1),
            Err(rule) => finish(
                index,
                run,
                Err(
                    SyncErrorView::Storage {
                        context: run.context(),
                        error: StorageErrorView::Violated(rule),
                    },
                ),
            ),
        },
        (Step::SolveStored, EventView::StoreFailed(report)) => finish(
            index,
            run,
            Err(
                SyncErrorView::Storage {
                    context: run.context(),
                    error: StorageErrorView::Engine(report),
                },
            ),
        ),
        _ => finish(index, run, Err(SyncErrorView::OutOfOrder)),
    }
}

} // verus!

//! The import of new users, one event at a time.
//!
//! New users and what they solved upstream are found by a full scan: the
//! challenge platform lists its users, and for every user that the store
//! does not know, every imported module is asked for. The run itself sends
//! and stores nothing. It says what is to be done next; the driver does it
//! and reports the outcome as the next event.

use crate::db::{texts, StorageError, DB};
use crate::remote::RemoteApiError;
use crate::sync_model::{
    seek_challenge, seek_module, seek_user, sync_step, first_unknown, ActionView, ContextView,
    EventView, Outcome, RunView, Step, SyncErrorView,
};
use vstd::prelude::*;
use vstd::string::*;

verus! {

/// Who and what a failure was about, as far as the run had got.
#[derive(Debug, PartialEq, Eq)]
pub struct Context {
    pub user: Option<String>,
    pub module: Option<String>,
    pub challenge: Option<String>,
}

/// Why a run ended early. Rows stored before the failure stay.
#[allow(inconsistent_fields)]
#[derive(Debug, PartialEq, Eq)]
pub enum SyncError {
    /// A platform could not be asked, or did not give what was asked for.
    RemoteApi { context: Context, error: RemoteApiError },
    /// The schema refuses the row, or the persisted store failed.
    Storage { context: Context, error: StorageError },
    /// A solved challenge resolves to a name that no local challenge has.
    /// The context names the raw id; `name` is what it resolved to.
    UnresolvedChallenge { context: Context, name: String },
    /// The reported event does not answer what was asked for.
    OutOfOrder,
}

/// What the driver reports.
#[derive(Debug, PartialEq, Eq)]
pub enum SyncEvent {
    /// The run is to begin.
    Start,
    /// The usernames that the challenge platform lists.
    Users(Vec<String>),
    /// The id that the persisted store gave the user it was asked to file.
    UserStored(i64),
    /// The raw ids of the challenges that the upstream platform lists as
    /// solved.
    Solves(Vec<String>),
    /// The display name that the upstream platform gives for a raw id.
    Name(String),
    /// The persisted store filed the solve it was asked to file.
    SolveStored,
    /// A platform could not be asked, or did not give what was asked for.
    RemoteFailed(RemoteApiError),
    /// The persisted store failed; the text is its report.
    StoreFailed(String),
}

/// What the driver is asked to do next.
#[derive(Debug, PartialEq, Eq)]
pub enum SyncAction {
    /// Ask the challenge platform for its usernames.
    ListUsers,
    /// File a user in the persisted store and report the id it got.
    StoreUser { username: String },
    /// Ask the upstream platform what a user solved in a module of a course.
    ListSolves { course: String, module: String, username: String },
    /// Ask the upstream platform for the display name of a raw id.
    ResolveName { challenge: String },
    /// File a solve in the persisted store.
    StoreSolve { user_id: i64, challenge_id: i64 },
    /// Nothing: the run is over, with this result.
    Finished(Result<(), SyncError>),
}

/// An optional text, taken as characters.
pub open spec fn opt_text(text: Option<String>) -> Option<Seq<char>> {
    match text {
        Some(t) => Some(t@),
        None => None,
    }
}

impl View for Context {
    type V = ContextView;

    open spec fn view(&self) -> ContextView {
        ContextView {
            user: opt_text(self.user),
            module: opt_text(self.module),
            challenge: opt_text(self.challenge),
        }
    }
}

impl View for SyncError {
    type V = SyncErrorView;

    open spec fn view(&self) -> SyncErrorView {
        match *self {
            SyncError::RemoteApi { context, error } => SyncErrorView::RemoteApi {
                context: context@,
                error: error@,
            },
            SyncError::Storage { context, error } => SyncErrorView::Storage {
                context: context@,
                error: error@,
            },
            SyncError::UnresolvedChallenge { context, name } => SyncErrorView::UnresolvedChallenge {
                context: context@,
                name: name@,
            },
            SyncError::OutOfOrder => SyncErrorView::OutOfOrder,
        }
    }
}

impl View for SyncEvent {
    type V = EventView;

    open spec fn view(&self) -> EventView {
        match *self {
            SyncEvent::Start => EventView::Start,
            SyncEvent::Users(users) => EventView::Users(texts(users@)),
            SyncEvent::UserStored(id) => EventView::UserStored(id),
            SyncEvent::Solves(solved) => EventView::Solves(texts(solved@)),
            SyncEvent::Name(name) => EventView::Name(name@),
            SyncEvent::SolveStored => EventView::SolveStored,
            SyncEvent::RemoteFailed(error) => EventView::RemoteFailed(error@),
            SyncEvent::StoreFailed(report) => EventView::StoreFailed(report@),
        }
    }
}

/// The result of a run, with its texts taken as characters.
pub open spec fn result_view(result: Result<(), SyncError>) -> Result<(), SyncErrorView> {
    match result {
        Ok(_) => Ok(()),
        Err(e) => Err(e@),
    }
}

impl View for SyncAction {
    type V = ActionView;

    open spec fn view(&self) -> ActionView {
        match *self {
            SyncAction::ListUsers => ActionView::ListUsers,
            SyncAction::StoreUser { username } => ActionView::StoreUser { username: username@ },
            SyncAction::ListSolves { course, module, username } => ActionView::ListSolves {
                course: course@,
                module: module@,
                username: username@,
            },
            SyncAction::ResolveName { challenge } => ActionView::ResolveName {
                challenge: challenge@,
            },
            SyncAction::StoreSolve { user_id, challenge_id } => ActionView::StoreSolve {
                user_id,
                challenge_id,
            },
            SyncAction::Finished(result) => ActionView::Finished(result_view(result)),
        }
    }
}

/// A run of the import of new users: the lists it was given and how far it
/// has come in each.
pub struct UserImport {
    step: Step,
    users: Vec<String>,
    user: usize,
    user_id: i64,
    modules: Vec<String>,
    module: usize,
    solved: Vec<String>,
    challenge: usize,
    challenge_id: i64,
}

impl View for UserImport {
    type V = RunView;

    closed spec fn view(&self) -> RunView {
        RunView {
            step: self.step,
            users: texts(self.users@),
            user: self.user as int,
            user_id: self.user_id,
            modules: texts(self.modules@),
            module: self.module as int,
            solved: texts(self.solved@),
            challenge: self.challenge as int,
            challenge_id: self.challenge_id,
        }
    }
}

impl UserImport {
    /// The places point into their lists as far as the step needs them.
    pub open spec fn wf(&self) -> bool {
        self@.wf()
    }

    /// A run that has not started.
    pub fn new() -> (run: UserImport)
        ensures
            run.wf(),
            run@ == RunView::idle(),
    {
        let run = UserImport {
            step: Step::Idle,
            users: Vec::new(),
            user: 0,
            user_id: 0,
            modules: Vec::new(),
            module: 0,
            solved: Vec::new(),
            challenge: 0,
            challenge_id: 0,
        };
        proof {
            assert(run@.users =~= Seq::empty());
            assert(run@.modules =~= Seq::empty());
            assert(run@.solved =~= Seq::empty());
        }
        run
    }

    /// Whether the run is over.
    pub fn is_done(&self) -> (done: bool)
        ensures
            done == (self@.step == Step::Done),
    {
        self.step == Step::Done
    }

    /// Who and what the run is busy with.
    fn context(&self) -> (context: Context)
        requires
            self.wf(),
        ensures
            context@ == self@.context(),
    {
        let with_user = self.step == Step::UserStored || self.step == Step::Solves || self.step
            == Step::Name || self.step == Step::SolveStored;
        let with_module = self.step == Step::Solves || self.step == Step::Name || self.step
            == Step::SolveStored;
        let with_challenge = self.step == Step::Name || self.step == Step::SolveStored;
        Context {
            user: if with_user {
                Some(self.users[self.user].clone())
            } else {
                None
            },
            module: if with_module {
                Some(self.modules[self.module].clone())
            } else {
                None
            },
            challenge: if with_challenge {
                Some(self.solved[self.challenge].clone())
            } else {
                None
            },
        }
    }

    /// Ends the run with the given failure.
    fn fail(&mut self, error: SyncError) -> (action: SyncAction)
        ensures
            final(self)@ == old(self)@.done(),
            action@ == ActionView::Finished(Err(error@)),
    {
        self.step = Step::Done;
        SyncAction::Finished(Err(error))
    }

    /// Moves on to the first user at or after `from` that the store does
    /// not know.
    fn seek_user(&mut self, db: &DB, from: usize) -> (action: SyncAction)
        requires
            old(self).wf(),
            from <= old(self).users.len(),
        ensures
            final(self).wf(),
            (Outcome { index: db@, run: final(self)@, action: action@ }) == seek_user(
                db@,
                old(self)@,
                from as int,
            ),
    {
        let mut at = from;
        while at < self.users.len() && db.user_exists(self.users[at].as_str())
            invariant
                from <= at <= self.users.len(),
                self == old(self),
                first_unknown(db@, self@.users, from as int) == first_unknown(
                    db@,
                    self@.users,
                    at as int,
                ),
            decreases self.users.len() - at,
        {
            at += 1;
        }
        if at < self.users.len() {
            self.step = Step::UserStored;
            self.user = at;
            SyncAction::StoreUser { username: self.users[at].clone() }
        } else {
            self.user = at;
            self.step = Step::Done;
            SyncAction::Finished(Ok(()))
        }
    }

    /// Asks what the current user solved in the module at place `at`; past
    /// the last module, moves on to the next user.
    fn seek_module(&mut self, db: &DB, at: usize) -> (action: SyncAction)
        requires
            old(self).wf(),
            old(self).user < old(self).users.len(),
        ensures
            final(self).wf(),
            (Outcome { index: db@, run: final(self)@, action: action@ }) == seek_module(
                db@,
                old(self)@,
                at as int,
            ),
    {
        if at < self.modules.len() {
            self.step = Step::Solves;
            self.module = at;
            SyncAction::ListSolves {
                course: String::from_str("intro-to-cybersecurity"),
                module: self.modules[at].clone(),
                username: self.users[self.user].clone(),
            }
        } else {
            let from = self.user + 1;
            self.seek_user(db, from)
        }
    }

    /// Asks for the display name of the solved challenge at place `at`;
    /// past the last one, moves on to the next module.
    fn seek_challenge(&mut self, db: &DB, at: usize) -> (action: SyncAction)
        requires
            old(self).wf(),
            old(self).user < old(self).users.len(),
            old(self).module < old(self).modules.len(),
        ensures
            final(self).wf(),
            (Outcome { index: db@, run: final(self)@, action: action@ }) == seek_challenge(
                db@,
                old(self)@,
                at as int,
            ),
    {
        if at < self.solved.len() {
            self.step = Step::Name;
            self.challenge = at;
            SyncAction::ResolveName { challenge: self.solved[at].clone() }
        } else {
            let next = self.module + 1;
            self.seek_module(db, next)
        }
    }
}

impl DB {
    /// Takes the import of new users one step further: applies what the
    /// driver reports to the store and to the run, and says what the driver
    /// is to do next.
    pub fn get_and_insert_new_users(&mut self, run: &mut UserImport, event: SyncEvent) -> (action:
        SyncAction)
        requires
            old(self).wf(),
            old(run).wf(),
        ensures
            final(self).wf(),
            final(run).wf(),
            (Outcome { index: final(self)@, run: final(run)@, action: action@ }) == sync_step(
                old(self)@,
                old(run)@,
                event@,
            ),
    {
        match event {
            SyncEvent::Start => {
                if run.step == Step::Idle {
                    run.modules = self.imported_modules();
                    run.module = 0;
                    run.step = Step::Users;
                    SyncAction::ListUsers
                } else {
                    run.fail(SyncError::OutOfOrder)
                }
            },
            SyncEvent::Users(users) => {
                if run.step == Step::Users {
                    run.users = users;
                    run.user = 0;
                    run.seek_user(self, 0)
                } else {
                    run.fail(SyncError::OutOfOrder)
                }
            },
            SyncEvent::UserStored(id) => {
                if run.step == Step::UserStored {
                    match self.insert_user(run.users[run.user].as_str(), id) {
                        Ok(_) => {
                            run.user_id = id;
                            run.seek_module(self, 0)
                        },
                        Err(error) => {
                            let context = run.context();
                            run.fail(SyncError::Storage { context, error })
                        },
                    }
                } else {
                    run.fail(SyncError::OutOfOrder)
                }
            },
            SyncEvent::Solves(solved) => {
                if run.step == Step::Solves {
                    run.solved = solved;
                    run.challenge = 0;
                    run.seek_challenge(self, 0)
                } else {
                    run.fail(SyncError::OutOfOrder)
                }
            },
            SyncEvent::Name(name) => {
                if run.step == Step::Name {
                    match self.challenge_id(name.as_str()) {
                        Some(challenge_id) => {
                            match self.check_solve(run.user_id, challenge_id) {
                                Ok(_) => {
                                    run.step = Step::SolveStored;
                                    run.challenge_id = challenge_id;
                                    SyncAction::StoreSolve { user_id: run.user_id, challenge_id }
                                },
                                Err(error) => {
                                    let context = run.context();
                                    run.fail(SyncError::Storage { context, error })
                                },
                            }
                        },
                        None => {
                            let context = run.context();
                            run.fail(SyncError::UnresolvedChallenge { context, name })
                        },
                    }
                } else {
                    run.fail(SyncError::OutOfOrder)
                }
            },
            SyncEvent::SolveStored => {
                if run.step == Step::SolveStored {
                    match self.insert_solve(run.user_id, run.challenge_id) {
                        Ok(_) => {
                            assert(run.challenge < run.solved.len());
                            let next = run.challenge + 1;
                            run.seek_challenge(self, next)
                        },
                        Err(error) => {
                            let context = run.context();
                            run.fail(SyncError::Storage { context, error })
                        },
                    }
                } else {
                    run.fail(SyncError::OutOfOrder)
                }
            },
            SyncEvent::RemoteFailed(error) => {
                if run.step == Step::Users || run.step == Step::Solves || run.step == Step::Name {
                    let context = run.context();
                    run.fail(SyncError::RemoteApi { context, error })
                } else {
                    run.fail(SyncError::OutOfOrder)
                }
            },
            SyncEvent::StoreFailed(report) => {
                if run.step == Step::UserStored || run.step == Step::SolveStored {
                    let context = run.context();
                    run.fail(SyncError::Storage { context, error: StorageError::Engine(report) })
                } else {
                    run.fail(SyncError::OutOfOrder)
                }
            },
        }
    }
}

} // verus!

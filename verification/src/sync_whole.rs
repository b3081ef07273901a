//! The import of new users as a whole: what it comes to when both
//! platforms and the persisted store answer every request.

use crate::db::StorageErrorView;
use crate::index::Index;
use crate::sync_laws::{sync_after, sync_request};
use crate::sync_model::{
    seek_challenge, seek_module, seek_user, sync_step, ActionView, ContextView, EventView,
    RunView, Step, SyncErrorView,
};
use vstd::prelude::*;

verus! {

/// What the run would be told, whatever it asks.
pub struct World {
    /// The usernames that the challenge platform lists.
    pub users: Seq<Seq<char>>,
    /// The id that the persisted store gives a username.
    pub ids: spec_fn(Seq<char>) -> i64,
    /// The raw ids that the upstream platform lists as solved, by module and
    /// username.
    pub solved: spec_fn(Seq<char>, Seq<char>) -> Seq<Seq<char>>,
    /// The display name that the upstream platform gives a raw id.
    pub names: spec_fn(Seq<char>) -> Seq<char>,
}

/// The store at the end of a run, and the result of the run.
pub struct Ended {
    pub index: Index,
    pub result: Result<(), SyncErrorView>,
}

/// The import from the user at place `from` on: a user that is on record
/// is passed over; a user that is not is put on record under the id that
/// the persisted store gives, and every imported module is then asked for.
pub open spec fn import_users(world: World, index: Index, modules: Seq<Seq<char>>, from: int)
    -> Ended
    decreases 2 * (world.users.len() - from) + 1, 0int, 0int,
{
    if from < 0 || from >= world.users.len() {
        Ended { index, result: Ok(()) }
    } else if index.users.contains_key(world.users[from]) {
        import_users(world, index, modules, from + 1)
    } else {
        let username = world.users[from];
        let id = (world.ids)(username);
        match index.insert_user(username, id) {
            Ok(next) => import_modules(world, next, modules, from, id, 0),
            Err(rule) => Ended {
                index,
                result: Err(
                    SyncErrorView::Storage {
                        context: ContextView { user: Some(username), module: None, challenge: None },
                        error: StorageErrorView::Violated(rule),
                    },
                ),
            },
        }
    }
}

/// The import from the module at place `module` on, for the user at place
/// `user`: what the user solved in each module is put on record; after the
/// last module comes the next user.
pub open spec fn import_modules(
    world: World,
    index: Index,
    modules: Seq<Seq<char>>,
    user: int,
    user_id: i64,
    module: int,
) -> Ended
    decreases 2 * (world.users.len() - user), 2 * (modules.len() - module) + 1, 0int,
{
    if user < 0 || user >= world.users.len() {
        Ended { index, result: Ok(()) }
    } else if 0 <= module < modules.len() {
        import_solves(
            world,
            index,
            modules,
            user,
            user_id,
            module,
            (world.solved)(modules[module], world.users[user]),
            0,
        )
    } else {
        import_users(world, index, modules, user + 1)
    }
}

/// The import from the solved challenge at place `challenge` on, for one
/// user and one module: each raw id is resolved to a display name, the local
/// challenge of that name is looked up, and the solve is put on record. A
/// name that no local challenge has ends the run, and so does a solve that
/// the schema refuses; what was put on record before stays.
pub open spec fn import_solves(
    world: World,
    index: Index,
    modules: Seq<Seq<char>>,
    user: int,
    user_id: i64,
    module: int,
    solved: Seq<Seq<char>>,
    challenge: int,
) -> Ended
    decreases 2 * (world.users.len() - user), 2 * (modules.len() - module), solved.len()
        - challenge,
{
    if user < 0 || user >= world.users.len() || module < 0 || module >= modules.len() {
        Ended { index, result: Ok(()) }
    } else if 0 <= challenge < solved.len() {
        let name = (world.names)(solved[challenge]);
        let context = ContextView {
            user: Some(world.users[user]),
            module: Some(modules[module]),
            challenge: Some(solved[challenge]),
        };
        if !index.challenges.contains_key(name) {
            Ended { index, result: Err(SyncErrorView::UnresolvedChallenge { context, name }) }
        } else {
            match index.insert_solve(user_id, index.challenges[name]) {
                Ok(next) => import_solves(
                    world,
                    next,
                    modules,
                    user,
                    user_id,
                    module,
                    solved,
                    challenge + 1,
                ),
                Err(rule) => Ended {
                    index,
                    result: Err(
                        SyncErrorView::Storage {
                            context,
                            error: StorageErrorView::Violated(rule),
                        },
                    ),
                },
            }
        }
    } else {
        import_modules(world, index, modules, user, user_id, module + 1)
    }
}

/// The whole import: every listed user, from the first on, with the
/// modules that are imported when the run begins.
pub open spec fn import_all(world: World, index: Index) -> Ended {
    import_users(world, index, index.imported, 0)
}

/// What the world answers to a request.
pub open spec fn answer(world: World, request: ActionView) -> EventView {
    match request {
        ActionView::ListUsers => EventView::Users(world.users),
        ActionView::StoreUser { username } => EventView::UserStored((world.ids)(username)),
        ActionView::ListSolves { course, module, username } => EventView::Solves(
            (world.solved)(module, username),
        ),
        ActionView::ResolveName { challenge } => EventView::Name((world.names)(challenge)),
        ActionView::StoreSolve { user_id, challenge_id } => EventView::SolveStored,
        ActionView::Finished(_) => EventView::Start,
    }
}

/// Whether the driver began the run and then reported, each time, what the
/// world answers to the request before, for as long as the run asked for
/// anything.
pub open spec fn answered_by(world: World, first: Index, events: Seq<EventView>) -> bool
    decreases events.len(),
{
    if events.len() == 0 {
        true
    } else if events.len() == 1 {
        events[0] == EventView::Start
    } else {
        &&& answered_by(world, first, events.drop_last())
        &&& !(sync_request(first, events.drop_last()) is Finished)
        &&& events.last() == answer(world, sync_request(first, events.drop_last()))
    }
}

/// What is left of the import when the run stands at `run` with `request`
/// pending.
pub open spec fn rest(world: World, index: Index, run: RunView, request: ActionView) -> Ended {
    match request {
        ActionView::ListUsers => import_users(world, index, run.modules, 0),
        ActionView::StoreUser { username } => match index.insert_user(
            username,
            (world.ids)(username),
        ) {
            Ok(next) => import_modules(
                world,
                next,
                run.modules,
                run.user,
                (world.ids)(username),
                0,
            ),
            Err(rule) => Ended {
                index,
                result: Err(
                    SyncErrorView::Storage {
                        context: ContextView { user: Some(username), module: None, challenge: None },
                        error: StorageErrorView::Violated(rule),
                    },
                ),
            },
        },
        ActionView::ListSolves { course, module, username } => import_solves(
            world,
            index,
            run.modules,
            run.user,
            run.user_id,
            run.module,
            (world.solved)(module, username),
            0,
        ),
        ActionView::ResolveName { challenge } => import_solves(
            world,
            index,
            run.modules,
            run.user,
            run.user_id,
            run.module,
            run.solved,
            run.challenge,
        ),
        ActionView::StoreSolve { user_id, challenge_id } => match index.insert_solve(
            user_id,
            challenge_id,
        ) {
            Ok(next) => import_solves(
                world,
                next,
                run.modules,
                run.user,
                run.user_id,
                run.module,
                run.solved,
                run.challenge + 1,
            ),
            Err(rule) => Ended {
                index,
                result: Err(
                    SyncErrorView::Storage {
                        context: run.context(),
                        error: StorageErrorView::Violated(rule),
                    },
                ),
            },
        },
        ActionView::Finished(result) => Ended { index, result },
    }
}

/// Whether the run stands where its pending request says, on the world's
/// list of users.
pub open spec fn in_step(world: World, run: RunView, request: ActionView) -> bool {
    &&& run.wf()
    &&& match request {
        ActionView::ListUsers => run.step == Step::Users,
        ActionView::StoreUser { username } => run.step == Step::UserStored && run.users
            == world.users && username == run.users[run.user],
        ActionView::ListSolves { course, module, username } => run.step == Step::Solves
            && run.users == world.users && module == run.modules[run.module] && username
            == run.users[run.user],
        ActionView::ResolveName { challenge } => run.step == Step::Name && run.users
            == world.users && challenge == run.solved[run.challenge],
        ActionView::StoreSolve { user_id, challenge_id } => run.step == Step::SolveStored
            && run.users == world.users && user_id == run.user_id && challenge_id
            == run.challenge_id,
        ActionView::Finished(_) => run.step == Step::Done,
    }
}

/// The search for the next user comes to what is left of the import from
/// that place on.
proof fn lemma_seek_user_rest(world: World, index: Index, run: RunView, from: int)
    requires
        run.wf(),
        run.users == world.users,
        0 <= from <= run.users.len(),
    ensures
        ({
            let out = seek_user(index, run, from);
            &&& in_step(world, out.run, out.action)
            &&& out.run.modules == run.modules
            &&& rest(world, out.index, out.run, out.action) == import_users(
                world,
                index,
                run.modules,
                from,
            )
        }),
    decreases run.users.len() - from,
{
    if from < run.users.len() && index.users.contains_key(run.users[from]) {
        lemma_seek_user_rest(world, index, run, from + 1);
    }
}

/// Asking for the next module comes to what is left of the import from that
/// module on.
proof fn lemma_seek_module_rest(world: World, index: Index, run: RunView, at: int)
    requires
        run.wf(),
        run.users == world.users,
        0 <= run.user < run.users.len(),
        0 <= at <= run.modules.len(),
    ensures
        ({
            let out = seek_module(index, run, at);
            &&& in_step(world, out.run, out.action)
            &&& out.run.modules == run.modules
            &&& rest(world, out.index, out.run, out.action) == import_modules(
                world,
                index,
                run.modules,
                run.user,
                run.user_id,
                at,
            )
        }),
{
    if !(at < run.modules.len()) {
        lemma_seek_user_rest(world, index, run, run.user + 1);
    }
}

/// Asking for the next solved challenge comes to what is left of the import
/// from that challenge on.
proof fn lemma_seek_challenge_rest(world: World, index: Index, run: RunView, at: int)
    requires
        run.wf(),
        run.users == world.users,
        0 <= run.user < run.users.len(),
        0 <= run.module < run.modules.len(),
        0 <= at <= run.solved.len(),
    ensures
        ({
            let out = seek_challenge(index, run, at);
            &&& in_step(world, out.run, out.action)
            &&& out.run.modules == run.modules
            &&& rest(world, out.index, out.run, out.action) == import_solves(
                world,
                index,
                run.modules,
                run.user,
                run.user_id,
                run.module,
                run.solved,
                at,
            )
        }),
{
    if !(at < run.solved.len()) {
        lemma_seek_module_rest(world, index, run, run.module + 1);
    }
}

/// An answered request leaves as much of the import to do as there was.
proof fn lemma_step_keeps_rest(world: World, index: Index, run: RunView, request: ActionView)
    requires
        in_step(world, run, request),
        !(request is Finished),
    ensures
        ({
            let out = sync_step(index, run, answer(world, request));
            &&& in_step(world, out.run, out.action)
            &&& out.run.modules == run.modules
            &&& rest(world, out.index, out.run, out.action) == rest(world, index, run, request)
        }),
{
    match request {
        ActionView::ListUsers => {
            lemma_seek_user_rest(world, index, RunView { users: world.users, user: 0, ..run }, 0);
        },
        ActionView::StoreUser { username } => {
            let id = (world.ids)(username);
            if index.insert_user(username, id) is Ok {
                let next = index.insert_user(username, id)->Ok_0;
                lemma_seek_module_rest(world, next, RunView { user_id: id, ..run }, 0);
            }
        },
        ActionView::ListSolves { course, module, username } => {
            let solved = (world.solved)(module, username);
            lemma_seek_challenge_rest(world, index, RunView { solved, challenge: 0, ..run }, 0);
        },
        ActionView::ResolveName { challenge } => {},
        ActionView::StoreSolve { user_id, challenge_id } => {
            if index.insert_solve(user_id, challenge_id) is Ok {
                let next = index.insert_solve(user_id, challenge_id)->Ok_0;
                lemma_seek_challenge_rest(world, next, run, run.challenge + 1);
            }
        },
        ActionView::Finished(_) => {},
    }
}

/// While the world answers, what is left of the import is the whole import
/// less what was done.
proof fn lemma_rest_is_kept(world: World, first: Index, events: Seq<EventView>)
    requires
        events.len() > 0,
        answered_by(world, first, events),
    ensures
        ({
            let last = sync_after(first, events);
            let request = sync_request(first, events);
            &&& in_step(world, last.1, request)
            &&& last.1.modules == first.imported
            &&& rest(world, last.0, last.1, request) == import_all(world, first)
        }),
    decreases events.len(),
{
    if events.len() == 1 {
        assert(sync_after(first, events.drop_last()) == (first, RunView::idle()));
    } else {
        let earlier = events.drop_last();
        lemma_rest_is_kept(world, first, earlier);
        let before = sync_after(first, earlier);
        lemma_step_keeps_rest(world, before.0, before.1, sync_request(first, earlier));
    }
}

/// The run is the import. Let the driver begin the run and then report, each
/// time, what the platforms and the persisted store answer. Once the run is
/// over, the store is what the whole import makes of the store the run began
/// on, and the result of the run is the result of the whole import.
pub proof fn lemma_run_is_the_import(world: World, first: Index, events: Seq<EventView>)
    requires
        events.len() > 0,
        answered_by(world, first, events),
        sync_request(first, events) is Finished,
    ensures
        import_all(world, first) == (Ended {
            index: sync_after(first, events).0,
            result: sync_request(first, events)->Finished_0,
        }),
{
    lemma_rest_is_kept(world, first, events);
}

} // verus!

//! What holds of the import of new users whatever the driver reports.

use crate::index::{lemma_insert_solve_wf, lemma_insert_user_wf, Index};
use crate::store_laws::lemma_kept_by_transitive;
use crate::sync_model::{
    first_unknown, seek_challenge, seek_module, seek_user, sync_step, ActionView, ContextView,
    EventView, RunView, Step, SyncErrorView,
};
use vstd::prelude::*;

verus! {

/// The store and the run after the driver has reported `events` one by one
/// to a run that had not started.
pub open spec fn sync_after(index: Index, events: Seq<EventView>) -> (Index, RunView)
    decreases events.len(),
{
    if events.len() == 0 {
        (index, RunView::idle())
    } else {
        let before = sync_after(index, events.drop_last());
        let out = sync_step(before.0, before.1, events.last());
        (out.index, out.run)
    }
}

/// What the driver is asked to do after it has reported `events`, the last
/// of them just now.
pub open spec fn sync_request(index: Index, events: Seq<EventView>) -> ActionView
    recommends
        events.len() > 0,
{
    let before = sync_after(index, events.drop_last());
    sync_step(before.0, before.1, events.last()).action
}

/// Whether the store knows every one of the first `end` usernames.
pub open spec fn known_upto(index: Index, users: Seq<Seq<char>>, end: int) -> bool {
    forall|k: int| 0 <= k < end && k < users.len() ==> index.users.contains_key(#[trigger] users[k])
}

/// Whether the current user of the run is one that the run added: not on
/// record when the run began, and on record now under the id that the run
/// holds.
pub open spec fn current_user_is_new(first: Index, index: Index, run: RunView) -> bool {
    &&& known_upto(index, run.users, run.user + 1)
    &&& !first.users.contains_key(run.users[run.user])
    &&& index.users[run.users[run.user]] == run.user_id
}

/// What a run keeps true of the store `index`, which was `first` when the
/// run began: the store obeys the schema and has lost nothing; challenges
/// and flags are as they were; every user that was added is one that the
/// challenge platform listed; every solve that was added is a solve of a
/// user that was added; and the users listed before the current one are all
/// on record.
pub open spec fn sync_inv(first: Index, index: Index, run: RunView) -> bool {
    &&& first.wf()
    &&& index.wf()
    &&& run.wf()
    &&& first.kept_by(index)
    &&& index.challenges == first.challenges
    &&& index.modules == first.modules
    &&& index.flags == first.flags
    &&& index.imported == first.imported
    &&& forall|name: Seq<char>| #[trigger]
        index.users.contains_key(name) ==> first.users.contains_key(name) || run.users.contains(
            name,
        )
    &&& forall|u: i64, c: i64| #[trigger]
        index.solves.contains((u, c)) ==> first.solves.contains((u, c))
            || !first.user_ids().contains(u)
    &&& match run.step {
        Step::Idle => index.users == first.users,
        Step::Users => index.users == first.users,
        Step::UserStored => known_upto(index, run.users, run.user),
        Step::Solves => current_user_is_new(first, index, run),
        Step::Name => current_user_is_new(first, index, run),
        Step::SolveStored => current_user_is_new(first, index, run),
        Step::Done => true,
    }
}

/// An id under which a user was added is an id that no user had before.
proof fn lemma_new_user_has_new_id(first: Index, index: Index, name: Seq<char>)
    requires
        index.wf(),
        first.users.submap_of(index.users),
        index.users.contains_key(name),
        !first.users.contains_key(name),
    ensures
        !first.user_ids().contains(index.users[name]),
{
    if first.user_ids().contains(index.users[name]) {
        let other = choose|other: Seq<char>| #[trigger]
            first.users.dom().contains(other) && first.users[other] == index.users[name];
        assert(index.users.dom().contains(other) && index.users[other] == first.users[other]);
    }
}

/// The search for the next unknown user stops at the first username, at or
/// after `from`, that the store does not know.
pub proof fn lemma_first_unknown(index: Index, users: Seq<Seq<char>>, from: int)
    requires
        0 <= from <= users.len(),
    ensures
        from <= first_unknown(index, users, from) <= users.len(),
        forall|k: int|
            from <= k < first_unknown(index, users, from) ==> index.users.contains_key(
                #[trigger] users[k],
            ),
        first_unknown(index, users, from) < users.len() ==> !index.users.contains_key(
            users[first_unknown(index, users, from)],
        ),
    decreases users.len() - from,
{
    if from < users.len() && index.users.contains_key(users[from]) {
        lemma_first_unknown(index, users, from + 1);
    }
}

/// Moving on to the next user keeps the run's promises, and where it ends
/// the run, every listed user is on record.
proof fn lemma_seek_user_inv(first: Index, index: Index, run: RunView, from: int)
    requires
        sync_inv(first, index, RunView { step: Step::Done, ..run }),
        0 <= from <= run.users.len(),
        known_upto(index, run.users, from),
    ensures
        sync_inv(first, seek_user(index, run, from).index, seek_user(index, run, from).run),
        seek_user(index, run, from).index == index,
        seek_user(index, run, from).action == ActionView::Finished(Ok(())) ==> known_upto(
            index,
            run.users,
            run.users.len() as int,
        ),
        seek_user(index, run, from).action matches ActionView::StoreUser { username }
            ==> !index.users.contains_key(username) && run.users.contains(username),
{
    lemma_first_unknown(index, run.users, from);
}

/// Moving on to the next module keeps the run's promises.
proof fn lemma_seek_module_inv(first: Index, index: Index, run: RunView, at: int)
    requires
        sync_inv(first, index, RunView { step: Step::Done, ..run }),
        0 <= run.user < run.users.len(),
        0 <= at,
        current_user_is_new(first, index, run),
    ensures
        sync_inv(first, seek_module(index, run, at).index, seek_module(index, run, at).run),
        seek_module(index, run, at).index == index,
        seek_module(index, run, at).action == ActionView::Finished(Ok(())) ==> known_upto(
            index,
            run.users,
            run.users.len() as int,
        ),
        seek_module(index, run, at).action matches ActionView::StoreUser { username }
            ==> !index.users.contains_key(username) && run.users.contains(username),
{
    if !(at < run.modules.len()) {
        lemma_seek_user_inv(first, index, run, run.user + 1);
    }
}

/// Moving on to the next solved challenge keeps the run's promises.
proof fn lemma_seek_challenge_inv(first: Index, index: Index, run: RunView, at: int)
    requires
        sync_inv(first, index, RunView { step: Step::Done, ..run }),
        0 <= run.user < run.users.len(),
        0 <= run.module < run.modules.len(),
        0 <= at,
        current_user_is_new(first, index, run),
    ensures
        sync_inv(first, seek_challenge(index, run, at).index, seek_challenge(index, run, at).run),
        seek_challenge(index, run, at).index == index,
        seek_challenge(index, run, at).action == ActionView::Finished(Ok(())) ==> known_upto(
            index,
            run.users,
            run.users.len() as int,
        ),
        seek_challenge(index, run, at).action matches ActionView::StoreUser { username }
            ==> !index.users.contains_key(username) && run.users.contains(username),
{
    if !(at < run.solved.len()) {
        lemma_seek_module_inv(first, index, run, run.module + 1);
    }
}

/// One event keeps the run's promises. Where the run then ends well, every
/// listed user is on record; where it asks to file a user, that user was
/// listed and is not on record; where it asks to file a solve, the schema
/// accepts the solve.
pub proof fn lemma_sync_step_inv(first: Index, index: Index, run: RunView, event: EventView)
    requires
        sync_inv(first, index, run),
    ensures
        ({
            let out = sync_step(index, run, event);
            &&& sync_inv(first, out.index, out.run)
            &&& out.action == ActionView::Finished(Ok(())) ==> known_upto(
                out.index,
                out.run.users,
                out.run.users.len() as int,
            )
            &&& out.action matches ActionView::StoreUser { username }
                ==> !out.index.users.contains_key(username) && out.run.users.contains(username)
            &&& out.action matches ActionView::StoreSolve { user_id, challenge_id }
                ==> out.index.insert_solve(user_id, challenge_id) is Ok
        }),
{
    match (run.step, event) {
        (Step::Users, EventView::Users(users)) => {
            let next = RunView { users, user: 0, ..run };
            lemma_seek_user_inv(first, index, next, 0);
        },
        (Step::UserStored, EventView::UserStored(id)) => {
            if index.insert_user(run.users[run.user], id) is Ok {
                let grown = index.insert_user(run.users[run.user], id)->Ok_0;
                lemma_insert_user_wf(index, run.users[run.user], id);
                let next = RunView { user_id: id, ..run };
                lemma_kept_by_transitive(first, index, grown);
                lemma_seek_module_inv(first, grown, next, 0);
            }
        },
        (Step::Solves, EventView::Solves(solved)) => {
            let next = RunView { solved, challenge: 0, ..run };
            lemma_seek_challenge_inv(first, index, next, 0);
        },
        (Step::SolveStored, EventView::SolveStored) => {
            if index.insert_solve(run.user_id, run.challenge_id) is Ok {
                let grown = index.insert_solve(run.user_id, run.challenge_id)->Ok_0;
                lemma_insert_solve_wf(index, run.user_id, run.challenge_id);
                lemma_kept_by_transitive(first, index, grown);
                lemma_new_user_has_new_id(first, index, run.users[run.user]);
                lemma_seek_challenge_inv(first, grown, run, run.challenge + 1);
            }
        },
        _ => {},
    }
}

/// Whatever the driver reports, in whatever order, the run's promises hold
/// after every event.
pub proof fn lemma_sync_after_inv(first: Index, events: Seq<EventView>)
    requires
        first.wf(),
    ensures
        sync_inv(first, sync_after(first, events).0, sync_after(first, events).1),
    decreases events.len(),
{
    if events.len() > 0 {
        lemma_sync_after_inv(first, events.drop_last());
        let before = sync_after(first, events.drop_last());
        lemma_sync_step_inv(first, before.0, before.1, events.last());
    }
}

/// Import convergence. Whatever the driver reports: users that were on
/// record keep their rows, and so do challenges, flags and solves; a user
/// that was on record gets no new solve. Where the run ends well, the users
/// on record are those that were on record before and those that the
/// challenge platform listed: each new username has got one row, each known
/// one none, in whatever order they were listed.
pub proof fn lemma_import_convergence(first: Index, events: Seq<EventView>)
    requires
        first.wf(),
        events.len() > 0,
    ensures
        ({
            let last = sync_after(first, events);
            &&& last.0.wf()
            &&& first.kept_by(last.0)
            &&& last.0.challenges == first.challenges
            &&& last.0.flags == first.flags
            &&& forall|u: i64, c: i64|
                first.user_ids().contains(u) ==> (#[trigger] last.0.solves.contains((u, c))
                    <==> first.solves.contains((u, c)))
            &&& sync_request(first, events) == ActionView::Finished(Ok(()))
                ==> last.0.users.dom() =~= first.users.dom().union(last.1.users.to_set())
        }),
{
    let before = sync_after(first, events.drop_last());
    lemma_sync_after_inv(first, events.drop_last());
    lemma_sync_step_inv(first, before.0, before.1, events.last());
}

/// The driver is asked to file only what the store will take: a user that
/// was listed and is not on record, a solve that the schema accepts.
pub proof fn lemma_requests_are_acceptable(first: Index, events: Seq<EventView>)
    requires
        first.wf(),
        events.len() > 0,
    ensures
        ({
            let last = sync_after(first, events);
            &&& sync_request(first, events) matches ActionView::StoreUser { username }
                ==> !last.0.users.contains_key(username) && last.1.users.contains(username)
            &&& sync_request(first, events) matches ActionView::StoreSolve { user_id, challenge_id }
                ==> last.0.insert_solve(user_id, challenge_id) is Ok
        }),
{
    let before = sync_after(first, events.drop_last());
    lemma_sync_after_inv(first, events.drop_last());
    lemma_sync_step_inv(first, before.0, before.1, events.last());
}

/// A solve that resolves is recorded. Where the upstream platform reports a
/// solved challenge for the current user, and the display name it resolves to
/// is that of a local challenge, the run asks to file the solve of that user
/// and that challenge, and has it on record once the persisted store has
/// filed it. Nothing else changes.
pub proof fn lemma_resolved_solve_is_recorded(
    first: Index,
    index: Index,
    run: RunView,
    name: Seq<char>,
)
    requires
        sync_inv(first, index, run),
        run.step == Step::Name,
        index.challenges.contains_key(name),
        !index.solves.contains((index.users[run.users[run.user]], index.challenges[name])),
    ensures
        ({
            let user_id = index.users[run.users[run.user]];
            let challenge_id = index.challenges[name];
            let asked = sync_step(index, run, EventView::Name(name));
            let filed = sync_step(asked.index, asked.run, EventView::SolveStored);
            &&& asked.action == (ActionView::StoreSolve { user_id, challenge_id })
            &&& asked.index == index
            &&& filed.index == (Index { solves: index.solves.insert((user_id, challenge_id)), ..index })
        }),
{
    assert(index.user_ids().contains(index.users[run.users[run.user]]));
    assert(index.challenge_ids().contains(index.challenges[name]));
}

/// A solve that does not resolve ends the run and costs nothing. Where the
/// display name is that of no local challenge, the run ends with a failure
/// that names the raw id and the name it resolved to; the store stays as it
/// is, with the user on record.
pub proof fn lemma_unresolved_solve_keeps_the_user(
    first: Index,
    index: Index,
    run: RunView,
    name: Seq<char>,
)
    requires
        sync_inv(first, index, run),
        run.step == Step::Name,
        !index.challenges.contains_key(name),
    ensures
        ({
            let out = sync_step(index, run, EventView::Name(name));
            &&& out.action == ActionView::Finished(
                Err(
                    SyncErrorView::UnresolvedChallenge {
                        context: ContextView {
                            user: Some(run.users[run.user]),
                            module: Some(run.modules[run.module]),
                            challenge: Some(run.solved[run.challenge]),
                        },
                        name,
                    },
                ),
            )
            &&& out.index == index
            &&& out.run.step == Step::Done
            &&& index.users.contains_key(run.users[run.user])
        }),
{
}

/// No new users, nothing to do. Where the store knows every username that
/// the challenge platform lists, the run ends well as soon as it has the
/// list: it asks for nothing more and leaves the store as it is.
pub proof fn lemma_no_new_users_is_a_no_op(index: Index, run: RunView, users: Seq<Seq<char>>)
    requires
        run.step == Step::Users,
        forall|k: int| 0 <= k < users.len() ==> index.users.contains_key(#[trigger] users[k]),
    ensures
        sync_step(index, run, EventView::Users(users)).action == ActionView::Finished(Ok(())),
        sync_step(index, run, EventView::Users(users)).index == index,
        sync_step(index, run, EventView::Users(users)).run.step == Step::Done,
{
    lemma_first_unknown(index, users, 0);
}

/// With one username on record and another not, the run asks to file the
/// one that is not, whichever of the two the challenge platform lists first,
/// and files it under the id that the persisted store reports.
pub proof fn lemma_known_user_is_skipped(
    index: Index,
    run: RunView,
    known: Seq<char>,
    fresh: Seq<char>,
    id: i64,
)
    requires
        run.step == Step::Users,
        index.users.contains_key(known),
        !index.users.contains_key(fresh),
        !index.user_ids().contains(id),
    ensures
        sync_step(index, run, EventView::Users(seq![known, fresh])).action
            == (ActionView::StoreUser { username: fresh }),
        sync_step(index, run, EventView::Users(seq![fresh, known])).action
            == (ActionView::StoreUser { username: fresh }),
        ({
            let asked = sync_step(index, run, EventView::Users(seq![known, fresh]));
            let stored = sync_step(asked.index, asked.run, EventView::UserStored(id));
            stored.index.users == index.users.insert(fresh, id)
        }),
        ({
            let asked = sync_step(index, run, EventView::Users(seq![fresh, known]));
            let stored = sync_step(asked.index, asked.run, EventView::UserStored(id));
            stored.index.users == index.users.insert(fresh, id)
        }),
{
    reveal_with_fuel(first_unknown, 3);
}

} // verus!

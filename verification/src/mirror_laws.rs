//! The persisted store and the index stay alike while the driver does what
//! it is asked to do.
//!
//! The driver writes a row into the persisted store when it is asked to,
//! and reports it. Only then does the index take the row. So where the
//! index is what a fresh start would build from the store before a run, it
//! is that after every event of the run.

use crate::import_laws::{
    import_after, import_inv, import_request, lemma_import_after_inv, lemma_import_step_inv,
};
use crate::import_model::{
    import_step, ImportActionView, ImportEventView, ImportStep, ImportView,
};
use crate::index::{Constraint, Index};
use crate::store_laws::{
    lemma_rebuild_after_write, lemma_rebuilt_obeys_schema, lemma_store_and_index_agree, Row,
    Tables,
};
use crate::sync_laws::{
    lemma_sync_after_inv, lemma_sync_step_inv, sync_after, sync_inv, sync_request,
};
use crate::sync_model::{seek_challenge, sync_step, ActionView, EventView, RunView, Step};
use vstd::prelude::*;

verus! {

/// The row that the driver wrote into the persisted store before it could
/// report `event` in answer to `request`.
pub open spec fn sync_written(request: ActionView, event: EventView) -> Option<Row> {
    match (request, event) {
        (ActionView::StoreUser { username }, EventView::UserStored(id)) => Some(
            Row::User { id, username },
        ),
        (ActionView::StoreSolve { user_id, challenge_id }, EventView::SolveStored) => Some(
            Row::Solve { user_id, challenge_id },
        ),
        _ => None,
    }
}

/// The persisted store after the driver has reported `events` to an import
/// of new users that began on the index `first`.
pub open spec fn sync_store(tables: Tables, first: Index, events: Seq<EventView>) -> Tables
    decreases events.len(),
{
    if events.len() <= 1 {
        tables
    } else {
        let before = sync_store(tables, first, events.drop_last());
        match sync_written(sync_request(first, events.drop_last()), events.last()) {
            Some(row) => before.write(row),
            None => before,
        }
    }
}

/// Whether the driver reported a row as stored only where the persisted
/// store took it: where a fresh start would still succeed with the row.
pub open spec fn sync_honest(tables: Tables, first: Index, events: Seq<EventView>) -> bool
    decreases events.len(),
{
    if events.len() <= 1 {
        true
    } else {
        &&& sync_honest(tables, first, events.drop_last())
        &&& match sync_written(sync_request(first, events.drop_last()), events.last()) {
            Some(row) => sync_store(tables, first, events.drop_last()).write(row).rebuild() is Ok,
            None => true,
        }
    }
}

/// A run waits for word of a stored user exactly where it has just asked to
/// store that user, and likewise for a solve.
proof fn lemma_sync_request_and_step(index: Index, run: RunView, event: EventView)
    ensures
        ({
            let out = sync_step(index, run, event);
            &&& out.run.step == Step::UserStored <==> out.action is StoreUser
            &&& out.run.step == Step::SolveStored <==> out.action is StoreSolve
            &&& out.action matches ActionView::StoreUser { username } ==> username
                == out.run.users[out.run.user]
            &&& out.action matches ActionView::StoreSolve { user_id, challenge_id } ==> user_id
                == out.run.user_id && challenge_id == out.run.challenge_id
        }),
{
}

/// The index changes only with a row that the driver wrote: an event takes
/// the index from `index` to the index with that row, or leaves it as it is.
proof fn lemma_sync_step_writes(
    first: Index,
    index: Index,
    run: RunView,
    request: ActionView,
    event: EventView,
)
    requires
        sync_inv(first, index, run),
        run.step == Step::UserStored <==> request is StoreUser,
        run.step == Step::SolveStored <==> request is StoreSolve,
        request matches ActionView::StoreUser { username } ==> username == run.users[run.user],
        request matches ActionView::StoreSolve { user_id, challenge_id } ==> user_id == run.user_id
            && challenge_id == run.challenge_id && index.insert_solve(user_id, challenge_id) is Ok,
    ensures
        match sync_written(request, event) {
            Some(row) => match index.insert(row) {
                Ok(next) => sync_step(index, run, event).index == next,
                Err(_) => sync_step(index, run, event).index == index,
            },
            None => sync_step(index, run, event).index == index,
        },
{
    lemma_sync_step_inv(first, index, run, event);
    match (run.step, event) {
        (Step::Solves, EventView::Solves(solved)) => {
            assert(seek_challenge(index, RunView { solved, challenge: 0, ..run }, 0).index
                == index);
        },
        _ => {},
    }
}

/// Store and index stay alike through an import of new users. Let the index
/// be what a fresh start would build from the persisted store when the run
/// begins, and let the driver report a row as stored only where the store
/// took it. Then, whatever else the driver reports, after every event the
/// index is what a fresh start would build from the store.
pub proof fn lemma_sync_keeps_store_and_index_alike(tables: Tables, events: Seq<EventView>)
    requires
        tables.rebuild() is Ok,
        sync_honest(tables, tables.rebuild()->Ok_0, events),
    ensures
        sync_store(tables, tables.rebuild()->Ok_0, events).rebuild() == Ok::<Index, Constraint>(
            sync_after(tables.rebuild()->Ok_0, events).0,
        ),
    decreases events.len(),
{
    let first = tables.rebuild()->Ok_0;
    lemma_rebuilt_obeys_schema(tables);
    if events.len() == 1 {
        assert(sync_after(first, events.drop_last()) == (first, RunView::idle()));
    } else if events.len() > 1 {
        let earlier = events.drop_last();
        lemma_sync_keeps_store_and_index_alike(tables, earlier);
        let before = sync_after(first, earlier);
        let store = sync_store(tables, first, earlier);
        let request = sync_request(first, earlier);
        // The state before the last event came out of a step.
        let older = sync_after(first, earlier.drop_last());
        lemma_sync_after_inv(first, earlier.drop_last());
        lemma_sync_step_inv(first, older.0, older.1, earlier.last());
        lemma_sync_request_and_step(older.0, older.1, earlier.last());
        lemma_sync_step_writes(first, before.0, before.1, request, events.last());
        match sync_written(request, events.last()) {
            Some(row) => {
                lemma_store_and_index_agree(store, row);
                lemma_rebuild_after_write(store, row);
            },
            None => {},
        }
    }
}

/// The row that the driver wrote into the persisted store before it could
/// report `event` in answer to `request`.
pub open spec fn import_written(request: ImportActionView, event: ImportEventView) -> Option<
    Row,
> {
    match (request, event) {
        (
            ImportActionView::StoreChallenge { id, name, module },
            ImportEventView::ChallengeStored,
        ) => Some(Row::Challenge { id, name, module }),
        (ImportActionView::StoreFlag { module, flag }, ImportEventView::FlagStored) => Some(
            Row::Flag { module, flag },
        ),
        _ => None,
    }
}

/// The persisted store after the driver has reported `events` to an import
/// of `module` that began on the index `first`.
pub open spec fn import_store(
    tables: Tables,
    first: Index,
    module: Seq<char>,
    flag: Seq<char>,
    events: Seq<ImportEventView>,
) -> Tables
    decreases events.len(),
{
    if events.len() <= 1 {
        tables
    } else {
        let before = import_store(tables, first, module, flag, events.drop_last());
        match import_written(
            import_request(first, module, flag, events.drop_last()),
            events.last(),
        ) {
            Some(row) => before.write(row),
            None => before,
        }
    }
}

/// An import waits for word of a stored challenge exactly where it has just
/// asked to store that challenge, and likewise for the flag.
proof fn lemma_import_request_and_step(index: Index, run: ImportView, event: ImportEventView)
    ensures
        ({
            let out = import_step(index, run, event);
            &&& out.run.step == ImportStep::ChallengeStored <==> out.action is StoreChallenge
            &&& out.run.step == ImportStep::FlagStored <==> out.action is StoreFlag
            &&& out.action matches ImportActionView::StoreChallenge { id, name, module } ==> id
                == out.run.remote_id && name == out.run.challenges[out.run.challenge] && module
                == out.run.module
            &&& out.action matches ImportActionView::StoreFlag { module, flag } ==> module
                == out.run.module && flag == out.run.flag
        }),
{
}

/// The index changes only with a row that the driver wrote.
proof fn lemma_import_step_writes(
    first: Index,
    index: Index,
    run: ImportView,
    request: ImportActionView,
    event: ImportEventView,
)
    requires
        import_inv(first, index, run),
        run.step == ImportStep::ChallengeStored <==> request is StoreChallenge,
        run.step == ImportStep::FlagStored <==> request is StoreFlag,
        request matches ImportActionView::StoreChallenge { id, name, module } ==> id
            == run.remote_id && name == run.challenges[run.challenge] && module == run.module
            && index.insert_challenge(id, name, module) is Ok,
        request matches ImportActionView::StoreFlag { module, flag } ==> module == run.module
            && flag == run.flag && index.insert_flag(module, flag) is Ok,
    ensures
        match import_written(request, event) {
            Some(row) => index.insert(row) is Ok && import_step(index, run, event).index
                == index.insert(row)->Ok_0,
            None => import_step(index, run, event).index == index,
        },
{
}

/// Store and index stay alike through the import of a module. Let the index
/// be what a fresh start would build from the persisted store when the
/// import begins. Then, whatever the driver reports, after every event the
/// index is what a fresh start would build from the store: the import asks
/// to store only rows that the store will take, and the index takes a row
/// only once the driver has reported it as stored.
pub proof fn lemma_import_keeps_store_and_index_alike(
    tables: Tables,
    module: Seq<char>,
    flag: Seq<char>,
    events: Seq<ImportEventView>,
)
    requires
        tables.rebuild() is Ok,
    ensures
        import_store(tables, tables.rebuild()->Ok_0, module, flag, events).rebuild() == Ok::<
            Index,
            Constraint,
        >(import_after(tables.rebuild()->Ok_0, module, flag, events).0),
    decreases events.len(),
{
    let first = tables.rebuild()->Ok_0;
    lemma_rebuilt_obeys_schema(tables);
    if events.len() == 1 {
        assert(import_after(first, module, flag, events.drop_last()) == (
            first,
            ImportView::idle(module, flag),
        ));
    } else if events.len() > 1 {
        let earlier = events.drop_last();
        lemma_import_keeps_store_and_index_alike(tables, module, flag, earlier);
        let before = import_after(first, module, flag, earlier);
        let store = import_store(tables, first, module, flag, earlier);
        let request = import_request(first, module, flag, earlier);
        let older = import_after(first, module, flag, earlier.drop_last());
        lemma_import_after_inv(first, module, flag, earlier.drop_last());
        lemma_import_step_inv(first, older.0, older.1, earlier.last());
        lemma_import_request_and_step(older.0, older.1, earlier.last());
        lemma_import_step_writes(first, before.0, before.1, request, events.last());
        match import_written(request, events.last()) {
            Some(row) => {
                lemma_rebuild_after_write(store, row);
            },
            None => {},
        }
    }
}

} // verus!

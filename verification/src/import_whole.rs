//! The import of a module as a whole: what it comes to when both platforms
//! and the persisted store answer every request.

use crate::db::StorageErrorView;
use crate::import_laws::{import_after, import_request};
use crate::import_model::{
    import_step, ImportActionView, ImportErrorView, ImportEventView, ImportStep, ImportView,
};
use crate::index::Index;
use vstd::prelude::*;

verus! {

/// What the import would be told, whatever it asks.
pub struct Platforms {
    /// The names of the module's challenges, as the upstream platform lists
    /// them.
    pub challenges: Seq<Seq<char>>,
    /// The display name of the module.
    pub category: Seq<char>,
    /// The id that the challenge platform has or makes for a challenge name.
    pub ids: spec_fn(Seq<char>) -> i64,
}

/// The store at the end of an import, and the result of the import.
pub struct Imported {
    pub index: Index,
    pub result: Result<(), ImportErrorView>,
}

/// The import from the challenge at place `at` on: each challenge is put on
/// record under the id that the challenge platform gives it, and after the
/// last the module gets its flag. A row that the schema refuses ends the
/// import; what was put on record before stays.
pub open spec fn import_challenges(
    world: Platforms,
    index: Index,
    module: Seq<char>,
    flag: Seq<char>,
    at: int,
) -> Imported
    decreases world.challenges.len() - at,
{
    if 0 <= at < world.challenges.len() {
        let name = world.challenges[at];
        match index.insert_challenge((world.ids)(name), name, module) {
            Ok(next) => import_challenges(world, next, module, flag, at + 1),
            Err(rule) => Imported {
                index,
                result: Err(
                    ImportErrorView::Storage {
                        challenge: Some(name),
                        error: StorageErrorView::Violated(rule),
                    },
                ),
            },
        }
    } else {
        match index.insert_flag(module, flag) {
            Ok(next) => Imported { index: next, result: Ok(()) },
            Err(rule) => Imported {
                index,
                result: Err(
                    ImportErrorView::Storage {
                        challenge: None,
                        error: StorageErrorView::Violated(rule),
                    },
                ),
            },
        }
    }
}

/// The whole import: refused where the module has a flag; otherwise every
/// challenge of the module, from the first on, and then the flag.
pub open spec fn import_module(world: Platforms, index: Index, module: Seq<char>, flag: Seq<char>)
    -> Imported {
    if index.flags.contains_key(module) {
        Imported { index, result: Err(ImportErrorView::AlreadyImported) }
    } else {
        import_challenges(world, index, module, flag, 0)
    }
}

/// What the world answers to a request.
pub open spec fn import_answer(world: Platforms, request: ImportActionView) -> ImportEventView {
    match request {
        ImportActionView::ListChallenges { module } => ImportEventView::Challenges(
            world.challenges,
        ),
        ImportActionView::ResolveModuleName { module } => ImportEventView::ModuleName(
            world.category,
        ),
        ImportActionView::CreateChallenge { name, category, flag } => ImportEventView::Created(
            (world.ids)(name),
        ),
        ImportActionView::StoreChallenge { id, name, module } => ImportEventView::ChallengeStored,
        ImportActionView::StoreFlag { module, flag } => ImportEventView::FlagStored,
        ImportActionView::Finished(_) => ImportEventView::Start,
    }
}

/// Whether the driver began the import and then reported, each time, what
/// the world answers to the request before, for as long as the import asked
/// for anything.
pub open spec fn import_answered_by(
    world: Platforms,
    first: Index,
    module: Seq<char>,
    flag: Seq<char>,
    events: Seq<ImportEventView>,
) -> bool
    decreases events.len(),
{
    if events.len() == 0 {
        true
    } else if events.len() == 1 {
        events[0] == ImportEventView::Start
    } else {
        &&& import_answered_by(world, first, module, flag, events.drop_last())
        &&& !(import_request(first, module, flag, events.drop_last()) is Finished)
        &&& events.last() == import_answer(
            world,
            import_request(first, module, flag, events.drop_last()),
        )
    }
}

/// What is left of the import when it stands at `run` with `request`
/// pending.
pub open spec fn import_rest(
    world: Platforms,
    index: Index,
    run: ImportView,
    request: ImportActionView,
) -> Imported {
    match request {
        ImportActionView::ListChallenges { module } => import_challenges(
            world,
            index,
            run.module,
            run.flag,
            0,
        ),
        ImportActionView::ResolveModuleName { module } => import_challenges(
            world,
            index,
            run.module,
            run.flag,
            0,
        ),
        ImportActionView::CreateChallenge { name, category, flag } => import_challenges(
            world,
            index,
            run.module,
            run.flag,
            run.challenge,
        ),
        ImportActionView::StoreChallenge { id, name, module } => import_challenges(
            world,
            index,
            run.module,
            run.flag,
            run.challenge,
        ),
        ImportActionView::StoreFlag { module, flag } => import_challenges(
            world,
            index,
            run.module,
            run.flag,
            run.challenges.len() as int,
        ),
        ImportActionView::Finished(result) => Imported { index, result },
    }
}

/// Whether the import stands where its pending request says, on the
/// world's list of challenges.
pub open spec fn import_in_step(world: Platforms, run: ImportView, request: ImportActionView)
    -> bool {
    &&& run.wf()
    &&& match request {
        ImportActionView::ListChallenges { module } => run.step == ImportStep::Challenges,
        ImportActionView::ResolveModuleName { module } => run.step == ImportStep::ModuleName
            && run.challenges == world.challenges,
        ImportActionView::CreateChallenge { name, category, flag } => run.step
            == ImportStep::Created && run.challenges == world.challenges && name
            == run.challenges[run.challenge],
        ImportActionView::StoreChallenge { id, name, module } => run.step
            == ImportStep::ChallengeStored && run.challenges == world.challenges && id
            == (world.ids)(run.challenges[run.challenge]) && id == run.remote_id,
        ImportActionView::StoreFlag { module, flag } => run.step == ImportStep::FlagStored
            && run.challenges == world.challenges,
        ImportActionView::Finished(_) => run.step == ImportStep::Done,
    }
}

/// An answered request leaves as much of the import to do as there was.
proof fn lemma_import_step_keeps_rest(
    world: Platforms,
    index: Index,
    run: ImportView,
    request: ImportActionView,
)
    requires
        import_in_step(world, run, request),
        !(request is Finished),
    ensures
        ({
            let out = import_step(index, run, import_answer(world, request));
            &&& import_in_step(world, out.run, out.action)
            &&& out.run.module == run.module
            &&& out.run.flag == run.flag
            &&& import_rest(world, out.index, out.run, out.action) == import_rest(
                world,
                index,
                run,
                request,
            )
        }),
{
}

/// While the world answers, what is left of the import is the whole import
/// less what was done.
proof fn lemma_import_rest_is_kept(
    world: Platforms,
    first: Index,
    module: Seq<char>,
    flag: Seq<char>,
    events: Seq<ImportEventView>,
)
    requires
        events.len() > 0,
        import_answered_by(world, first, module, flag, events),
    ensures
        ({
            let last = import_after(first, module, flag, events);
            let request = import_request(first, module, flag, events);
            &&& import_in_step(world, last.1, request)
            &&& last.1.module == module
            &&& last.1.flag == flag
            &&& import_rest(world, last.0, last.1, request) == import_module(
                world,
                first,
                module,
                flag,
            )
        }),
    decreases events.len(),
{
    if events.len() == 1 {
        assert(import_after(first, module, flag, events.drop_last()) == (
            first,
            ImportView::idle(module, flag),
        ));
    } else {
        let earlier = events.drop_last();
        lemma_import_rest_is_kept(world, first, module, flag, earlier);
        let before = import_after(first, module, flag, earlier);
        lemma_import_step_keeps_rest(
            world,
            before.0,
            before.1,
            import_request(first, module, flag, earlier),
        );
    }
}

/// The run is the import. Let the driver begin the import and then report,
/// each time, what the platforms and the persisted store answer. Once the
/// import is over, the store is what the whole import makes of the store it
/// began on, and its result is the result of the whole import.
pub proof fn lemma_run_is_the_module_import(
    world: Platforms,
    first: Index,
    module: Seq<char>,
    flag: Seq<char>,
    events: Seq<ImportEventView>,
)
    requires
        events.len() > 0,
        import_answered_by(world, first, module, flag, events),
        import_request(first, module, flag, events) is Finished,
    ensures
        import_module(world, first, module, flag) == (Imported {
            index: import_after(first, module, flag, events).0,
            result: import_request(first, module, flag, events)->Finished_0,
        }),
{
    lemma_import_rest_is_kept(world, first, module, flag, events);
}

} // verus!

//! What holds of the import of a module whatever the driver reports.

use crate::import_model::{
    import_step, seek_create, ImportActionView, ImportErrorView, ImportEventView, ImportStep,
    ImportView,
};
use crate::index::{lemma_insert_challenge_wf, lemma_insert_flag_wf, Index};
use crate::store_laws::lemma_kept_by_transitive;
use vstd::prelude::*;

verus! {

/// The store and the import after the driver has reported `events` one by
/// one to an import of `module` that had not started.
pub open spec fn import_after(
    index: Index,
    module: Seq<char>,
    flag: Seq<char>,
    events: Seq<ImportEventView>,
) -> (Index, ImportView)
    decreases events.len(),
{
    if events.len() == 0 {
        (index, ImportView::idle(module, flag))
    } else {
        let before = import_after(index, module, flag, events.drop_last());
        let out = import_step(before.0, before.1, events.last());
        (out.index, out.run)
    }
}

/// What the driver is asked to do after it has reported `events`, the last
/// of them just now.
pub open spec fn import_request(
    index: Index,
    module: Seq<char>,
    flag: Seq<char>,
    events: Seq<ImportEventView>,
) -> ImportActionView
    recommends
        events.len() > 0,
{
    let before = import_after(index, module, flag, events.drop_last());
    import_step(before.0, before.1, events.last()).action
}

/// Whether the first `end` challenges of the import are on record under its
/// module.
pub open spec fn recorded_upto(index: Index, run: ImportView, end: int) -> bool {
    forall|k: int|
        0 <= k < end && k < run.challenges.len() ==> index.challenges.contains_key(
            #[trigger] run.challenges[k],
        ) && index.modules[run.challenges[k]] == run.module
}

/// What an import keeps true of the store `index`, which was `first` when
/// the import began: the store obeys the schema and has lost nothing; users
/// and solves are as they were; the challenges before the current one are on
/// record; and the flags are as they were, or the module's flag was added
/// with every challenge of the module on record.
pub open spec fn import_inv(first: Index, index: Index, run: ImportView) -> bool {
    &&& first.wf()
    &&& index.wf()
    &&& run.wf()
    &&& first.kept_by(index)
    &&& index.users == first.users
    &&& index.solves == first.solves
    &&& match run.step {
        ImportStep::Created => recorded_upto(index, run, run.challenge),
        ImportStep::ChallengeStored => recorded_upto(index, run, run.challenge),
        ImportStep::FlagStored => recorded_upto(index, run, run.challenges.len() as int),
        _ => true,
    }
    &&& if run.step == ImportStep::Done {
        ||| index.flags == first.flags && index.imported == first.imported
        ||| {
            &&& !first.flags.contains_key(run.module)
            &&& index.flags == first.flags.insert(run.module, run.flag)
            &&& index.imported == first.imported.push(run.module)
            &&& recorded_upto(index, run, run.challenges.len() as int)
        }
    } else {
        index.flags == first.flags && index.imported == first.imported
    }
}

/// Moving on to the next challenge keeps the import's promises.
proof fn lemma_seek_create_inv(first: Index, index: Index, run: ImportView, at: int)
    requires
        import_inv(first, index, ImportView { step: ImportStep::Challenges, ..run }),
        0 <= at <= run.challenges.len(),
        recorded_upto(index, run, at),
    ensures
        import_inv(first, seek_create(index, run, at).index, seek_create(index, run, at).run),
        seek_create(index, run, at).index == index,
        seek_create(index, run, at).action != ImportActionView::Finished(Ok(())),
        seek_create(index, run, at).action matches ImportActionView::StoreFlag { module, flag }
            ==> index.insert_flag(module, flag) is Ok,
        !(seek_create(index, run, at).action is StoreChallenge),
{
}

/// One event keeps the import's promises. Where the import then ends well,
/// the module has its flag; where it asks to file a row, the schema accepts
/// the row.
pub proof fn lemma_import_step_inv(
    first: Index,
    index: Index,
    run: ImportView,
    event: ImportEventView,
)
    requires
        import_inv(first, index, run),
    ensures
        ({
            let out = import_step(index, run, event);
            &&& import_inv(first, out.index, out.run)
            &&& out.run.module == run.module
            &&& out.run.flag == run.flag
            &&& out.action == ImportActionView::Finished(Ok(())) ==> {
                &&& !index.flags.contains_key(run.module)
                &&& out.index.flags.contains_key(run.module)
                &&& out.index.flags[run.module] == run.flag
            }
            &&& out.action matches ImportActionView::StoreChallenge { id, name, module }
                ==> out.index.insert_challenge(id, name, module) is Ok
            &&& out.action matches ImportActionView::StoreFlag { module, flag }
                ==> out.index.insert_flag(module, flag) is Ok
        }),
{
    match (run.step, event) {
        (ImportStep::ModuleName, ImportEventView::ModuleName(category)) => {
            lemma_seek_create_inv(first, index, ImportView { category, ..run }, 0);
        },
        (ImportStep::ChallengeStored, ImportEventView::ChallengeStored) => {
            let name = run.challenges[run.challenge];
            if index.insert_challenge(run.remote_id, name, run.module) is Ok {
                let grown = index.insert_challenge(run.remote_id, name, run.module)->Ok_0;
                lemma_insert_challenge_wf(index, run.remote_id, name, run.module);
                lemma_kept_by_transitive(first, index, grown);
                lemma_seek_create_inv(first, grown, run, run.challenge + 1);
            }
        },
        (ImportStep::FlagStored, ImportEventView::FlagStored) => {
            if index.insert_flag(run.module, run.flag) is Ok {
                let grown = index.insert_flag(run.module, run.flag)->Ok_0;
                lemma_insert_flag_wf(index, run.module, run.flag);
                lemma_kept_by_transitive(first, index, grown);
            }
        },
        _ => {},
    }
}

/// Whatever the driver reports, in whatever order, the import's promises
/// hold after every event, and the import stays with its module and flag.
pub proof fn lemma_import_after_inv(
    first: Index,
    module: Seq<char>,
    flag: Seq<char>,
    events: Seq<ImportEventView>,
)
    requires
        first.wf(),
    ensures
        import_inv(
            first,
            import_after(first, module, flag, events).0,
            import_after(first, module, flag, events).1,
        ),
        import_after(first, module, flag, events).1.module == module,
        import_after(first, module, flag, events).1.flag == flag,
    decreases events.len(),
{
    if events.len() > 0 {
        lemma_import_after_inv(first, module, flag, events.drop_last());
        let before = import_after(first, module, flag, events.drop_last());
        lemma_import_step_inv(first, before.0, before.1, events.last());
    }
}

/// The flag comes last. Whatever the driver reports, where the module has a
/// flag after the import that it did not have before, that flag is the
/// import's, and every challenge that the upstream platform listed for the
/// module is on record under the module.
pub proof fn lemma_flag_marks_complete_import(
    first: Index,
    module: Seq<char>,
    flag: Seq<char>,
    events: Seq<ImportEventView>,
)
    requires
        first.wf(),
        !first.flags.contains_key(module),
        import_after(first, module, flag, events).0.flags.contains_key(module),
    ensures
        ({
            let last = import_after(first, module, flag, events);
            &&& last.0.flags[module] == flag
            &&& forall|k: int|
                0 <= k < last.1.challenges.len() ==> last.0.challenges.contains_key(
                    #[trigger] last.1.challenges[k],
                ) && last.0.modules[last.1.challenges[k]] == module
        }),
{
    lemma_import_after_inv(first, module, flag, events);
}

/// An import of a module that has a flag does nothing: whatever the driver
/// reports, the store stays as it is, and the driver is asked for nothing
/// but to stop. The first request is the refusal itself where the driver began
/// as it should.
pub proof fn lemma_imported_module_is_rejected(
    index: Index,
    module: Seq<char>,
    flag: Seq<char>,
    events: Seq<ImportEventView>,
)
    requires
        index.flags.contains_key(module),
        events.len() > 0,
    ensures
        import_after(index, module, flag, events).0 == index,
        import_after(index, module, flag, events).1.step == ImportStep::Done,
        import_request(index, module, flag, events) is Finished,
        import_request(index, module, flag, events)->Finished_0 is Err,
        events == seq![ImportEventView::Start] ==> import_request(index, module, flag, events)
            == ImportActionView::Finished(Err(ImportErrorView::AlreadyImported)),
    decreases events.len(),
{
    if events.len() > 1 {
        lemma_imported_module_is_rejected(index, module, flag, events.drop_last());
    } else {
        assert(import_after(index, module, flag, events.drop_last()).1 == ImportView::idle(
            module,
            flag,
        ));
    }
}

/// Importing twice imports once. Where an import of a module ends well, the
/// module has its flag, and a second import of the module, begun on the store
/// as the first left it, is refused at once: it changes nothing and asks for
/// no challenge to be created.
pub proof fn lemma_second_import_is_rejected(
    first: Index,
    module: Seq<char>,
    flag: Seq<char>,
    events: Seq<ImportEventView>,
    other_flag: Seq<char>,
)
    requires
        first.wf(),
        events.len() > 0,
        import_request(first, module, flag, events) == ImportActionView::Finished(Ok(())),
    ensures
        ({
            let done = import_after(first, module, flag, events).0;
            let again = import_step(
                done,
                ImportView::idle(module, other_flag),
                ImportEventView::Start,
            );
            &&& done.flags.contains_key(module)
            &&& done.flags[module] == flag
            &&& again.action == ImportActionView::Finished(Err(ImportErrorView::AlreadyImported))
            &&& again.index == done
            &&& again.run.step == ImportStep::Done
        }),
{
    let before = import_after(first, module, flag, events.drop_last());
    lemma_import_after_inv(first, module, flag, events.drop_last());
    lemma_import_step_inv(first, before.0, before.1, events.last());
}

/// One flag per import. Whatever the driver reports, every challenge that
/// the import asks to create is to be created with the import's flag; the
/// flag that it asks to file is that same flag, filed for the import's
/// module; and every challenge is filed under that module.
pub proof fn lemma_one_flag_per_import(
    first: Index,
    module: Seq<char>,
    flag: Seq<char>,
    events: Seq<ImportEventView>,
)
    requires
        first.wf(),
        events.len() > 0,
    ensures
        import_request(first, module, flag, events) matches ImportActionView::CreateChallenge {
            name,
            category,
            flag: handed,
        } ==> handed == flag,
        import_request(first, module, flag, events) matches ImportActionView::StoreFlag {
            module: filed_for,
            flag: filed,
        } ==> filed_for == module && filed == flag,
        import_request(first, module, flag, events) matches ImportActionView::StoreChallenge {
            id,
            name,
            module: filed_under,
        } ==> filed_under == module,
{
    lemma_import_after_inv(first, module, flag, events.drop_last());
}

/// The driver is asked to file only what the store will take.
pub proof fn lemma_import_requests_are_acceptable(
    first: Index,
    module: Seq<char>,
    flag: Seq<char>,
    events: Seq<ImportEventView>,
)
    requires
        first.wf(),
        events.len() > 0,
    ensures
        ({
            let last = import_after(first, module, flag, events);
            &&& import_request(first, module, flag, events) matches ImportActionView::StoreChallenge {
                id,
                name,
                module,
            } ==> last.0.insert_challenge(id, name, module) is Ok
            &&& import_request(first, module, flag, events) matches ImportActionView::StoreFlag {
                module,
                flag,
            } ==> last.0.insert_flag(module, flag) is Ok
        }),
{
    let before = import_after(first, module, flag, events.drop_last());
    lemma_import_after_inv(first, module, flag, events.drop_last());
    lemma_import_step_inv(first, before.0, before.1, events.last());
}

} // verus!

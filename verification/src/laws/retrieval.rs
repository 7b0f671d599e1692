use vstd::prelude::*;
use crate::environment::Environment;
use crate::laws::filter::all_survive_without_filter;
use crate::laws::visiting::nothing_visited_iff_nothing_survives;
use crate::model::{
    answer_batch, collected, consolidated, holds_no_record, surviving, visits, BatchView,
    RecordView,
};

verus! {

/// The empty result. A run fails for want of records exactly when the
/// consolidation of what it collected would be empty: batches that hold no
/// record, as when every request failed or every record was filtered out,
/// consolidate to the empty list, and no others do.
pub proof fn no_record_iff_empty_consolidation(batches: Seq<BatchView>)
    ensures
        holds_no_record(batches) <==> consolidated(visits(batches, None)).len() == 0,
{
    nothing_visited_iff_nothing_survives(batches, None);
    assert forall|batch: int| 0 <= batch < batches.len() implies surviving(
        (#[trigger] batches[batch]).records,
        None,
    ) == batches[batch].records by {
        all_survive_without_filter(batches[batch].records);
    }
}

/// Filtering when the batches are collected and consolidating without a
/// filter visits the same records as collecting without a filter and
/// filtering at consolidation.
pub proof fn filter_early_or_late(
    targets: Seq<Environment>,
    responses: Seq<Option<Seq<RecordView>>>,
    needle: Option<Seq<char>>,
)
    ensures
        visits(collected(targets, responses, needle), None) == visits(
            collected(targets, responses, None),
            needle,
        ),
    decreases responses.len(),
{
    if responses.len() > 0 {
        filter_early_or_late(targets, responses.drop_last(), needle);
        let place = responses.len() - 1;
        if let Some(records) = responses.last() {
            if place < targets.len() {
                let early = collected(targets, responses, needle);
                let late = collected(targets, responses, None);
                let early_before = collected(targets, responses.drop_last(), needle);
                let late_before = collected(targets, responses.drop_last(), None);
                assert(early.drop_last() =~= early_before);
                assert(late.drop_last() =~= late_before);
                all_survive_without_filter(surviving(records, needle));
                all_survive_without_filter(records);
            }
        }
    }
}

/// Every batch of a run answers one of its targets: it holds the passing
/// records of a response that came back for that target.
pub proof fn batches_come_from_answers(
    targets: Seq<Environment>,
    responses: Seq<Option<Seq<RecordView>>>,
    needle: Option<Seq<char>>,
    batch: int,
)
    requires
        0 <= batch < collected(targets, responses, needle).len(),
    ensures
        exists|place: int|
            0 <= place < responses.len() && place < targets.len() && (
            #[trigger] responses[place]) is Some && collected(targets, responses, needle)[batch]
                == answer_batch(targets[place], responses[place]->0, needle),
    decreases responses.len(),
{
    let earlier = responses.drop_last();
    if batch < collected(targets, earlier, needle).len() {
        batches_come_from_answers(targets, earlier, needle, batch);
        let place = choose|place: int|
            0 <= place < earlier.len() && place < targets.len() && (#[trigger] earlier[place])
                is Some && collected(targets, earlier, needle)[batch] == answer_batch(
                targets[place],
                earlier[place]->0,
                needle,
            );
        assert(responses[place] == earlier[place]);
    }
}

/// Where every request is answered, every target has its batch, at its own
/// place.
pub proof fn answered_targets_give_batches(
    targets: Seq<Environment>,
    responses: Seq<Option<Seq<RecordView>>>,
    needle: Option<Seq<char>>,
)
    requires
        responses.len() <= targets.len(),
        forall|place: int| 0 <= place < responses.len() ==> (#[trigger] responses[place]) is Some,
    ensures
        collected(targets, responses, needle).len() == responses.len(),
        forall|place: int|
            0 <= place < responses.len() ==> #[trigger] collected(targets, responses, needle)[place]
                == answer_batch(targets[place], responses[place]->0, needle),
    decreases responses.len(),
{
    if responses.len() > 0 {
        let fewer = responses.drop_last();
        assert(forall|place: int| 0 <= place < fewer.len() ==> (#[trigger] fewer[place]) is Some);
        answered_targets_give_batches(targets, fewer, needle);
    }
}

/// Partial failure is tolerated. Where one request fails and the others are
/// answered, the run collects the batch of every other target, in order,
/// and none for the failed one: one batch less than there are targets.
pub proof fn failure_costs_its_own_batch_only(
    targets: Seq<Environment>,
    responses: Seq<Option<Seq<RecordView>>>,
    needle: Option<Seq<char>>,
    failed: int,
)
    requires
        responses.len() <= targets.len(),
        0 <= failed < responses.len(),
        responses[failed] is None,
        forall|place: int|
            0 <= place < responses.len() && place != failed ==> (#[trigger] responses[place]) is Some,
    ensures
        collected(targets, responses, needle).len() == responses.len() - 1,
        forall|place: int|
            0 <= place < failed ==> #[trigger] collected(targets, responses, needle)[place]
                == answer_batch(targets[place], responses[place]->0, needle),
        forall|place: int|
            failed <= place < responses.len() - 1 ==> #[trigger] collected(
                targets,
                responses,
                needle,
            )[place] == answer_batch(targets[place + 1], responses[place + 1]->0, needle),
    decreases responses.len(),
{
    let fewer = responses.drop_last();
    if failed == responses.len() - 1 {
        assert(forall|place: int| 0 <= place < fewer.len() ==> (#[trigger] fewer[place]) is Some);
        answered_targets_give_batches(targets, fewer, needle);
    } else {
        assert(forall|place: int|
            0 <= place < fewer.len() && place != failed ==> (#[trigger] fewer[place]) is Some);
        failure_costs_its_own_batch_only(targets, fewer, needle, failed);
    }
}

} // verus!

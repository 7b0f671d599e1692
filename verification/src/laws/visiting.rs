use vstd::prelude::*;
use crate::environment::Environment;
use crate::laws::filter::{all_survive_without_filter, surviving_are_the_passing};
use crate::laws::merging::{
    first_record_names_the_entry, last_write_wins, location_iff_record_seen,
};
use crate::model::{
    absorbed, batch_visits, consolidated, first_seen_keys, merged, record_matches, seeded,
    surviving, target_holds_key, visited_after, visited_before, visits, with_url, BatchView,
    RecordView, ResultView, Visit,
};

verus! {

/// What is visited in one batch are its passing records, under its target.
pub proof fn batch_visits_are_the_passing(
    batch: BatchView,
    needle: Option<Seq<char>>,
    visit: Visit,
)
    ensures
        batch_visits(batch, needle).contains(visit) <==> visit.target == batch.target
            && batch.records.contains(visit.record) && record_matches(visit.record, needle),
{
    let kept = surviving(batch.records, needle);
    surviving_are_the_passing(batch.records, needle, visit.record);
    if visit.target == batch.target && kept.contains(visit.record) {
        let place = choose|place: int| 0 <= place < kept.len() && kept[place] == visit.record;
        assert(batch_visits(batch, needle)[place] == visit);
    }
}

/// What consolidation visits are the records of the batches that pass the
/// filter, each under the target of its batch.
pub proof fn visits_are_the_passing(
    batches: Seq<BatchView>,
    needle: Option<Seq<char>>,
    visit: Visit,
)
    ensures
        visits(batches, needle).contains(visit) <==> record_matches(visit.record, needle)
            && exists|batch: int, place: int|
            0 <= batch < batches.len() && 0 <= place < batches[batch].records.len()
                && batches[batch].target == visit.target && #[trigger] batches[batch].records[place]
                == visit.record,
    decreases batches.len(),
{
    if batches.len() == 0 {
        assert(!visits(batches, needle).contains(visit));
    } else {
        let earlier = batches.drop_last();
        let last = batches.last();
        let front = visits(earlier, needle);
        let back = batch_visits(last, needle);
        visits_are_the_passing(earlier, needle, visit);
        batch_visits_are_the_passing(last, needle, visit);
        if visits(batches, needle).contains(visit) {
            let at = choose|at: int| 0 <= at < (front + back).len() && (front + back)[at] == visit;
            if at >= front.len() {
                assert(back.contains(visit));
            }
        }
        if record_matches(visit.record, needle) && exists|batch: int, place: int|
            0 <= batch < batches.len() && 0 <= place < batches[batch].records.len()
                && batches[batch].target == visit.target && #[trigger] batches[batch].records[place]
                == visit.record {
            let (batch, place) = choose|batch: int, place: int|
                0 <= batch < batches.len() && 0 <= place < batches[batch].records.len()
                    && batches[batch].target == visit.target
                    && #[trigger] batches[batch].records[place] == visit.record;
            if batch < earlier.len() {
                let at = choose|at: int| 0 <= at < front.len() && front[at] == visit;
                assert((front + back)[at] == visit);
            } else {
                let at = choose|at: int| 0 <= at < back.len() && back[at] == visit;
                assert((front + back)[front.len() + at] == visit);
            }
        }
    }
}

/// Consolidation visits the batches one after the other: what it visits
/// in two lists of batches joined is what it visits in the first, then
/// what it visits in the second.
pub proof fn visits_of_joined_batches(
    front: Seq<BatchView>,
    back: Seq<BatchView>,
    needle: Option<Seq<char>>,
)
    ensures
        visits(front + back, needle) == visits(front, needle) + visits(back, needle),
    decreases back.len(),
{
    if back.len() > 0 {
        visits_of_joined_batches(front, back.drop_last(), needle);
        assert((front + back).drop_last() =~= front + back.drop_last());
    }
}

/// Within a batch the records are visited one after the other.
pub proof fn visits_of_joined_records(
    target: Environment,
    front: Seq<RecordView>,
    back: Seq<RecordView>,
    needle: Option<Seq<char>>,
)
    ensures
        batch_visits(BatchView { target, records: front + back }, needle) == batch_visits(
            BatchView { target, records: front },
            needle,
        ) + batch_visits(BatchView { target, records: back }, needle),
{
}

/// The order of the visit. A record that passes the filter is visited once
/// at its own place: what is visited before it are the passing records at
/// earlier places, and what is visited after it are those at later places.
/// The result holds the two parts of the visit around that record.
pub proof fn visit_around(
    batches: Seq<BatchView>,
    needle: Option<Seq<char>>,
    batch: int,
    place: int,
) -> (parts: (Seq<Visit>, Seq<Visit>))
    requires
        0 <= batch < batches.len(),
        0 <= place < batches[batch].records.len(),
        record_matches(batches[batch].records[place], needle),
    ensures
        visits(batches, needle) == parts.0.push(
            Visit { target: batches[batch].target, record: batches[batch].records[place] },
        ) + parts.1,
        forall|at: int|
            0 <= at < parts.0.len() ==> visited_before(
                batches,
                needle,
                batch,
                place,
                #[trigger] parts.0[at],
            ),
        forall|at: int|
            0 <= at < parts.1.len() ==> visited_after(
                batches,
                needle,
                batch,
                place,
                #[trigger] parts.1[at],
            ),
{
    let current = batches[batch];
    let target = current.target;
    let record = current.records[place];
    let visit = Visit { target, record };
    let batches_before = batches.take(batch);
    let batches_after = batches.skip(batch + 1);
    let records_before = current.records.take(place);
    let records_after = current.records.skip(place + 1);
    let head = BatchView { target, records: records_before };
    let tail = BatchView { target, records: records_after };
    let before = visits(batches_before, needle) + batch_visits(head, needle);
    let after = batch_visits(tail, needle) + visits(batches_after, needle);

    assert(batches =~= batches_before.push(current) + batches_after);
    visits_of_joined_batches(batches_before.push(current), batches_after, needle);
    assert(batches_before.push(current).drop_last() =~= batches_before);
    assert(current.records =~= (records_before + seq![record]) + records_after);
    visits_of_joined_records(target, records_before + seq![record], records_after, needle);
    visits_of_joined_records(target, records_before, seq![record], needle);
    assert(batch_visits(BatchView { target, records: seq![record] }, needle) =~= seq![visit]) by {
        let passes = |record: RecordView| record_matches(record, needle);
        Seq::<RecordView>::empty().lemma_filter_push(record, passes);
    }

    assert forall|at: int| 0 <= at < before.len() implies visited_before(
        batches,
        needle,
        batch,
        place,
        #[trigger] before[at],
    ) by {
        if at < visits(batches_before, needle).len() {
            visits_are_the_passing(batches_before, needle, before[at]);
        } else {
            batch_visits_are_the_passing(head, needle, before[at]);
        }
    }
    assert forall|at: int| 0 <= at < after.len() implies visited_after(
        batches,
        needle,
        batch,
        place,
        #[trigger] after[at],
    ) by {
        if at < batch_visits(tail, needle).len() {
            batch_visits_are_the_passing(tail, needle, after[at]);
        } else {
            visits_are_the_passing(batches_after, needle, after[at]);
        }
    }
    (before, after)
}

/// The grouping invariant. A consolidated entry gives a location for an
/// environment exactly when a batch of that environment holds a record with
/// the entry's key that passes the filter. So the environments for which an
/// entry has a location are among those whose batches held its key.
pub proof fn grouping_invariant(
    batches: Seq<BatchView>,
    needle: Option<Seq<char>>,
    key: Seq<char>,
    target: Environment,
)
    ensures
        (merged(visits(batches, needle)).contains_key(key) && merged(
            visits(batches, needle),
        )[key].url.contains_key(target)) <==> target_holds_key(batches, needle, target, key),
{
    let visited = visits(batches, needle);
    location_iff_record_seen(visited, key, target);
    if exists|place: int|
        0 <= place < visited.len() && (#[trigger] visited[place]).record.key == key
            && visited[place].target == target {
        let at = choose|at: int|
            0 <= at < visited.len() && (#[trigger] visited[at]).record.key == key
                && visited[at].target == target;
        visits_are_the_passing(batches, needle, visited[at]);
    }
    if target_holds_key(batches, needle, target, key) {
        let (batch, place) = choose|batch: int, place: int|
            0 <= batch < batches.len() && 0 <= place < batches[batch].records.len()
                && batches[batch].target == target && (
            #[trigger] batches[batch].records[place]).key == key && record_matches(
                batches[batch].records[place],
                needle,
            );
        visits_are_the_passing(
            batches,
            needle,
            Visit { target, record: batches[batch].records[place] },
        );
    }
}

/// Last write wins, said of the batches. Where a record passes the filter
/// and no passing record with its key stands behind it in a batch of the
/// same environment, the consolidated entry of its key gives that record's
/// location for the environment. So of two records with one key in one
/// batch, the later one decides.
pub proof fn last_record_of_a_target_wins(
    batches: Seq<BatchView>,
    needle: Option<Seq<char>>,
    batch: int,
    place: int,
)
    requires
        0 <= batch < batches.len(),
        0 <= place < batches[batch].records.len(),
        record_matches(batches[batch].records[place], needle),
        forall|other: int, at: int|
            0 <= other < batches.len() && 0 <= at < batches[other].records.len() && (other > batch
                || (other == batch && at > place)) && batches[other].target
                == batches[batch].target && record_matches(batches[other].records[at], needle)
                ==> (#[trigger] batches[other].records[at]).key
                != batches[batch].records[place].key,
    ensures
        merged(visits(batches, needle)).contains_key(batches[batch].records[place].key),
        merged(visits(batches, needle))[batches[batch].records[place].key].url.contains_key(
            batches[batch].target,
        ),
        merged(visits(batches, needle))[batches[batch].records[place].key].url[batches[batch].target]
            == batches[batch].records[place].url,
{
    let (before, after) = visit_around(batches, needle, batch, place);
    let visited = visits(batches, needle);
    let last = before.len() as int;
    assert forall|later: int| last < later < visited.len() implies !((
    #[trigger] visited[later]).record.key == visited[last].record.key && visited[later].target
        == visited[last].target) by {
        assert(visited_after(batches, needle, batch, place, after[later - last - 1]));
    }
    last_write_wins(visited, last);
}

/// First record names the entry, said of the batches. Where a record passes
/// the filter and no passing record with its key stands before it, in
/// whatever batch, the consolidated entry of its key has that record's name
/// and description.
pub proof fn first_record_of_a_key_names_it(
    batches: Seq<BatchView>,
    needle: Option<Seq<char>>,
    batch: int,
    place: int,
)
    requires
        0 <= batch < batches.len(),
        0 <= place < batches[batch].records.len(),
        record_matches(batches[batch].records[place], needle),
        forall|other: int, at: int|
            0 <= other < batches.len() && 0 <= at < batches[other].records.len() && (other < batch
                || (other == batch && at < place)) && record_matches(
                batches[other].records[at],
                needle,
            ) ==> (#[trigger] batches[other].records[at]).key
                != batches[batch].records[place].key,
    ensures
        merged(visits(batches, needle)).contains_key(batches[batch].records[place].key),
        merged(visits(batches, needle))[batches[batch].records[place].key].name
            == batches[batch].records[place].name,
        merged(visits(batches, needle))[batches[batch].records[place].key].description
            == batches[batch].records[place].description,
{
    let (before, _) = visit_around(batches, needle, batch, place);
    let visited = visits(batches, needle);
    let first = before.len() as int;
    assert forall|earlier: int| 0 <= earlier < first implies (
    #[trigger] visited[earlier]).record.key != visited[first].record.key by {
        assert(visited_before(batches, needle, batch, place, before[earlier]));
    }
    first_record_names_the_entry(visited, first);
}

/// The later of two records wins. A batch that holds two records with one
/// key, and nothing else, consolidates to a single entry: it has the texts
/// of the first record and, for the batch's environment, the location of
/// the second.
pub proof fn later_record_wins(target: Environment, first: RecordView, second: RecordView)
    requires
        first.key == second.key,
    ensures
        consolidated(visits(seq![BatchView { target, records: seq![first, second] }], None))
            == seq![
            ResultView {
                name: first.name,
                description: first.description,
                key: first.key,
                url: Map::empty().insert(target, second.url),
            },
        ],
{
    let batch = BatchView { target, records: seq![first, second] };
    let batches = seq![batch];
    let one = Visit { target, record: first };
    let two = Visit { target, record: second };
    all_survive_without_filter(batch.records);
    assert(batches.drop_last() =~= Seq::<BatchView>::empty());
    assert(visits(batches.drop_last(), None) =~= Seq::<Visit>::empty());
    let visited = visits(batches, None);
    assert(visited =~= seq![one, two]);
    assert(visited.drop_last() =~= seq![one]);
    assert(seq![one].drop_last() =~= Seq::<Visit>::empty());
    assert(merged(Seq::<Visit>::empty()) =~= Map::empty());
    assert(first_seen_keys(Seq::<Visit>::empty()) =~= Seq::empty());
    assert(first_seen_keys(seq![one]) =~= seq![first.key]);
    assert(seq![first.key][0] == first.key);
    assert(first_seen_keys(visited) =~= seq![first.key]);
    let expected = ResultView {
        name: first.name,
        description: first.description,
        key: first.key,
        url: Map::empty().insert(target, second.url),
    };
    let nothing = Map::<Seq<char>, ResultView>::empty();
    assert(seq![one].last() == one);
    assert(merged(seq![one]) == absorbed(nothing, one));
    assert(visited.last() == two);
    assert(merged(visited) == absorbed(absorbed(nothing, one), two));
    assert(absorbed(nothing, one)[first.key] == with_url(seeded(first), target, first.url));
    assert(merged(visited)[first.key].url =~= expected.url);
    assert(merged(visited)[first.key] == expected);
    assert(consolidated(visited) =~= seq![expected]);
}

/// Nothing survives, nothing is visited: consolidation visits no record
/// exactly when no batch holds a record that passes the filter.
pub proof fn nothing_visited_iff_nothing_survives(
    batches: Seq<BatchView>,
    needle: Option<Seq<char>>,
)
    ensures
        visits(batches, needle).len() == 0 <==> forall|batch: int|
            0 <= batch < batches.len() ==> surviving(
                (#[trigger] batches[batch]).records,
                needle,
            ).len() == 0,
    decreases batches.len(),
{
    if batches.len() > 0 {
        let earlier = batches.drop_last();
        nothing_visited_iff_nothing_survives(earlier, needle);
        if visits(batches, needle).len() == 0 {
            assert forall|batch: int| 0 <= batch < batches.len() implies surviving(
                (#[trigger] batches[batch]).records,
                needle,
            ).len() == 0 by {
                if batch < earlier.len() {
                    assert(earlier[batch] == batches[batch]);
                }
            }
        }
        if forall|batch: int|
            0 <= batch < batches.len() ==> surviving(
                (#[trigger] batches[batch]).records,
                needle,
            ).len() == 0 {
            assert(forall|batch: int|
                0 <= batch < earlier.len() ==> surviving(
                    (#[trigger] earlier[batch]).records,
                    needle,
                ).len() == 0);
        }
    }
}

} // verus!

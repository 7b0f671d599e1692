use vstd::prelude::*;
use crate::environment::Environment;
use crate::laws::merging::entry_iff_key_seen;
use crate::laws::visiting::{grouping_invariant, last_record_of_a_target_wins, visits_are_the_passing};
use crate::model::{
    all_among, last_place, merged, one_batch_per_target, record_matches, visits, BatchView,
    RecordView,
};

verus! {

/// Where a record with a key passes the filter, the last such record has a
/// place, it is such a record, and none stands behind it.
pub proof fn last_place_is_last(
    records: Seq<RecordView>,
    needle: Option<Seq<char>>,
    key: Seq<char>,
    place: int,
)
    requires
        0 <= place < records.len(),
        records[place].key == key,
        record_matches(records[place], needle),
    ensures
        place <= last_place(records, needle, key) < records.len(),
        records[last_place(records, needle, key)].key == key,
        record_matches(records[last_place(records, needle, key)], needle),
        forall|later: int|
            last_place(records, needle, key) < later < records.len() ==> !((
            #[trigger] records[later]).key == key && record_matches(records[later], needle)),
    decreases records.len(),
{
    if !(records.last().key == key && record_matches(records.last(), needle)) {
        let fewer = records.drop_last();
        last_place_is_last(fewer, needle, key, place);
        assert forall|later: int|
            last_place(records, needle, key) < later < records.len() implies !((
        #[trigger] records[later]).key == key && record_matches(records[later], needle)) by {
            if later < fewer.len() {
                assert(fewer[later] == records[later]);
            }
        }
    }
}

/// Where each environment has one batch at most, the location that
/// consolidation gives for a key in an environment is decided within that
/// environment's batch: it is the location of the last record there with
/// the key that passes the filter.
pub proof fn location_is_decided_in_one_batch(
    batches: Seq<BatchView>,
    needle: Option<Seq<char>>,
    batch: int,
    place: int,
)
    requires
        one_batch_per_target(batches),
        0 <= batch < batches.len(),
        0 <= place < batches[batch].records.len(),
        record_matches(batches[batch].records[place], needle),
    ensures
        merged(visits(batches, needle)).contains_key(batches[batch].records[place].key),
        merged(visits(batches, needle))[batches[batch].records[place].key].url.contains_key(
            batches[batch].target,
        ),
        merged(visits(batches, needle))[batches[batch].records[place].key].url[batches[batch].target]
            == batches[batch].records[last_place(
            batches[batch].records,
            needle,
            batches[batch].records[place].key,
        )].url,
{
    let records = batches[batch].records;
    let key = records[place].key;
    last_place_is_last(records, needle, key, place);
    let last = last_place(records, needle, key);
    assert forall|other: int, at: int|
        0 <= other < batches.len() && 0 <= at < batches[other].records.len() && (other > batch || (
        other == batch && at > last)) && batches[other].target == batches[batch].target
            && record_matches(batches[other].records[at], needle) implies (
    #[trigger] batches[other].records[at]).key != batches[batch].records[last].key by {
        assert(other > batch ==> batches[other].target != batches[batch].target);
    }
    last_record_of_a_target_wins(batches, needle, batch, last);
}

/// The order of arrival does not matter. Two lists of the same batches,
/// with one batch at most for each environment, consolidate to the same
/// keys, and to the same locations under each key, in whatever order the
/// batches stand in either list.
pub proof fn arrival_order_does_not_matter(
    first: Seq<BatchView>,
    second: Seq<BatchView>,
    needle: Option<Seq<char>>,
)
    requires
        one_batch_per_target(first),
        one_batch_per_target(second),
        all_among(first, second),
        all_among(second, first),
    ensures
        merged(visits(first, needle)).dom() == merged(visits(second, needle)).dom(),
        forall|key: Seq<char>| #[trigger]
            merged(visits(first, needle)).contains_key(key) ==> merged(visits(first, needle))[key].url
                == merged(visits(second, needle))[key].url,
{
    let one = merged(visits(first, needle));
    let two = merged(visits(second, needle));
    assert forall|key: Seq<char>| one.contains_key(key) <==> two.contains_key(key) by {
        if one.contains_key(key) {
            same_batches_same_keys(first, second, needle, key);
        }
        if two.contains_key(key) {
            same_batches_same_keys(second, first, needle, key);
        }
    }
    assert forall|key: Seq<char>| #[trigger] one.contains_key(key) implies one[key].url
        == two[key].url by {
        assert forall|target: Environment|
            one[key].url.contains_key(target) <==> two[key].url.contains_key(target) by {
            if one[key].url.contains_key(target) {
                same_batches_same_location(first, second, needle, key, target);
            }
            if two[key].url.contains_key(target) {
                same_batches_same_location(second, first, needle, key, target);
            }
        }
        assert forall|target: Environment| one[key].url.contains_key(target) implies one[key].url[target]
            == two[key].url[target] by {
            same_batches_same_location(first, second, needle, key, target);
        }
    }
}

/// A key that one list of batches consolidates to is a key of every list
/// that holds those batches.
proof fn same_batches_same_keys(
    first: Seq<BatchView>,
    second: Seq<BatchView>,
    needle: Option<Seq<char>>,
    key: Seq<char>,
)
    requires
        all_among(first, second),
        merged(visits(first, needle)).contains_key(key),
    ensures
        merged(visits(second, needle)).contains_key(key),
{
    let seen = visits(first, needle);
    entry_iff_key_seen(seen, key);
    let at = choose|at: int| 0 <= at < seen.len() && (#[trigger] seen[at]).record.key == key;
    let visit = seen[at];
    assert(seen.contains(visit));
    visits_are_the_passing(first, needle, visit);
    let (batch, place) = choose|batch: int, place: int|
        0 <= batch < first.len() && 0 <= place < first[batch].records.len() && first[batch].target
            == visit.target && #[trigger] first[batch].records[place] == visit.record;
    assert(second.contains(first[batch]));
    let other = choose|other: int| 0 <= other < second.len() && second[other] == first[batch];
    assert(second[other].records[place] == visit.record);
    visits_are_the_passing(second, needle, visit);
    let there = visits(second, needle);
    assert(there.contains(visit));
    let back = choose|back: int| 0 <= back < there.len() && there[back] == visit;
    assert(there[back].record.key == key);
    entry_iff_key_seen(there, key);
}

/// A location that one list of batches consolidates to is the location that
/// every list of those batches consolidates to, where each environment has
/// one batch at most.
proof fn same_batches_same_location(
    first: Seq<BatchView>,
    second: Seq<BatchView>,
    needle: Option<Seq<char>>,
    key: Seq<char>,
    target: Environment,
)
    requires
        one_batch_per_target(first),
        one_batch_per_target(second),
        all_among(first, second),
        merged(visits(first, needle)).contains_key(key),
        merged(visits(first, needle))[key].url.contains_key(target),
    ensures
        merged(visits(second, needle)).contains_key(key),
        merged(visits(second, needle))[key].url.contains_key(target),
        merged(visits(second, needle))[key].url[target] == merged(visits(first, needle))[key].url[target],
{
    grouping_invariant(first, needle, key, target);
    let (batch, place) = choose|batch: int, place: int|
        0 <= batch < first.len() && 0 <= place < first[batch].records.len() && first[batch].target
            == target && (#[trigger] first[batch].records[place]).key == key && record_matches(
            first[batch].records[place],
            needle,
        );
    location_is_decided_in_one_batch(first, needle, batch, place);
    let other = choose|other: int| 0 <= other < second.len() && second[other] == first[batch];
    location_is_decided_in_one_batch(second, needle, other, place);
}

} // verus!

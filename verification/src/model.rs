use vstd::prelude::*;
use crate::environment::Environment;
use crate::text::{is_substring, lowercase};

verus! {

/// A record as the endpoint returned it, as plain text.
pub struct RecordView {
    pub name: Seq<char>,
    pub description: Seq<char>,
    pub key: Seq<char>,
    pub url: Seq<char>,
}

/// The records that one environment returned, in response order.
pub struct BatchView {
    pub target: Environment,
    pub records: Seq<RecordView>,
}

/// One consolidated entry: the texts of the first record seen with its key,
/// and the location of that key in each environment that has one.
pub struct ResultView {
    pub name: Seq<char>,
    pub description: Seq<char>,
    pub key: Seq<char>,
    pub url: Map<Environment, Seq<char>>,
}

/// One step of consolidation: a record together with the environment whose
/// batch holds it.
pub struct Visit {
    pub target: Environment,
    pub record: RecordView,
}

/// The form in which a filter is compared: absent stays absent, and a text
/// is lowercased. The empty text needs no lowering.
pub open spec fn normalized(pattern: Option<Seq<char>>) -> Option<Seq<char>> {
    match pattern {
        Some(text) => Some(
            if text.len() == 0 {
                text
            } else {
                lowercase(text)
            },
        ),
        None => None,
    }
}

/// Whether `needle` occurs in one of three texts.
pub open spec fn occurs_in_any(
    needle: Seq<char>,
    name: Seq<char>,
    description: Seq<char>,
    key: Seq<char>,
) -> bool {
    is_substring(needle, name) || is_substring(needle, description) || is_substring(needle, key)
}

/// Whether a record passes a normalized filter: always when there is none,
/// otherwise when the filter occurs in the lowercased name, description or
/// key. The url plays no part.
pub open spec fn record_matches(record: RecordView, needle: Option<Seq<char>>) -> bool {
    match needle {
        Some(text) => occurs_in_any(
            text,
            lowercase(record.name),
            lowercase(record.description),
            lowercase(record.key),
        ),
        None => true,
    }
}

/// The records of `records` that pass `needle`, in their order.
pub open spec fn surviving(records: Seq<RecordView>, needle: Option<Seq<char>>) -> Seq<
    RecordView,
> {
    records.filter(|record: RecordView| record_matches(record, needle))
}

/// The surviving records of one batch, each with the batch's target.
pub open spec fn batch_visits(batch: BatchView, needle: Option<Seq<char>>) -> Seq<Visit> {
    surviving(batch.records, needle).map_values(
        |record: RecordView| Visit { target: batch.target, record },
    )
}

/// The surviving records of all batches in the order in which consolidation
/// visits them: batch by batch, and within a batch in response order.
pub open spec fn visits(batches: Seq<BatchView>, needle: Option<Seq<char>>) -> Seq<Visit>
    decreases batches.len(),
{
    if batches.len() == 0 {
        Seq::empty()
    } else {
        visits(batches.drop_last(), needle) + batch_visits(batches.last(), needle)
    }
}

/// The batches that a run collects. `responses` holds, for the target at the
/// same place in `targets`, the records that came back, or `None` where the
/// request failed. Each answered target gives one batch of the records that
/// pass `needle`; a failed target gives none, and neither does a target
/// without a response or a response without a target.
pub open spec fn collected(
    targets: Seq<Environment>,
    responses: Seq<Option<Seq<RecordView>>>,
    needle: Option<Seq<char>>,
) -> Seq<BatchView>
    decreases responses.len(),
{
    if responses.len() == 0 {
        Seq::empty()
    } else {
        let earlier = collected(targets, responses.drop_last(), needle);
        let place = responses.len() - 1;
        match responses.last() {
            Some(records) if place < targets.len() => earlier.push(
                answer_batch(targets[place], records, needle),
            ),
            _ => earlier,
        }
    }
}

/// The batch that an answered target gives: its records that pass `needle`.
pub open spec fn answer_batch(
    target: Environment,
    records: Seq<RecordView>,
    needle: Option<Seq<char>>,
) -> BatchView {
    BatchView { target, records: surviving(records, needle) }
}

/// Whether none of the batches holds a record.
pub open spec fn holds_no_record(batches: Seq<BatchView>) -> bool {
    forall|place: int| 0 <= place < batches.len() ==> (#[trigger] batches[place]).records.len() == 0
}

/// A fresh consolidated entry for a key first met in `record`: its texts,
/// and no location yet.
pub open spec fn seeded(record: RecordView) -> ResultView {
    ResultView {
        name: record.name,
        description: record.description,
        key: record.key,
        url: Map::empty(),
    }
}

/// `result` with the location for `target` set to `url`, whatever it was.
pub open spec fn with_url(result: ResultView, target: Environment, url: Seq<char>) -> ResultView {
    ResultView { url: result.url.insert(target, url), ..result }
}

/// The key-to-entry mapping after one more record: the entry under the
/// record's key is created if there was none, and its location for the
/// record's environment is overwritten.
pub open spec fn absorbed(merged: Map<Seq<char>, ResultView>, visit: Visit) -> Map<
    Seq<char>,
    ResultView,
> {
    let key = visit.record.key;
    let current = if merged.contains_key(key) {
        merged[key]
    } else {
        seeded(visit.record)
    };
    merged.insert(key, with_url(current, visit.target, visit.record.url))
}

/// The key-to-entry mapping that results from absorbing the records of
/// `seen` in order.
pub open spec fn merged(seen: Seq<Visit>) -> Map<Seq<char>, ResultView>
    decreases seen.len(),
{
    if seen.len() == 0 {
        Map::empty()
    } else {
        absorbed(merged(seen.drop_last()), seen.last())
    }
}

/// The distinct keys of the records of `seen`, each at the place of its
/// first occurrence.
pub open spec fn first_seen_keys(seen: Seq<Visit>) -> Seq<Seq<char>>
    decreases seen.len(),
{
    if seen.len() == 0 {
        Seq::empty()
    } else {
        let earlier = first_seen_keys(seen.drop_last());
        let key = seen.last().record.key;
        if earlier.contains(key) {
            earlier
        } else {
            earlier.push(key)
        }
    }
}

/// The consolidated list: one entry per key, in the order in which the keys
/// were first seen.
pub open spec fn consolidated(seen: Seq<Visit>) -> Seq<ResultView> {
    let keys = first_seen_keys(seen);
    let by_key = merged(seen);
    Seq::new(keys.len(), |position: int| by_key[keys[position]])
}

/// Whether `listing` shows each entry of `by_key` exactly once, in whatever
/// order.
pub open spec fn lists(listing: Seq<ResultView>, by_key: Map<Seq<char>, ResultView>) -> bool {
    &&& forall|place: int|
        0 <= place < listing.len() ==> by_key.contains_key((#[trigger] listing[place]).key)
            && by_key[listing[place].key] == listing[place]
    &&& forall|key: Seq<char>| #[trigger]
        by_key.contains_key(key) ==> exists|place: int|
            0 <= place < listing.len() && (#[trigger] listing[place]).key == key
    &&& forall|first: int, second: int|
        0 <= first < second < listing.len() ==> (#[trigger] listing[first]).key != (
        #[trigger] listing[second]).key
}

/// Whether `listing` has an entry under `key`.
pub open spec fn has_key(listing: Seq<ResultView>, key: Seq<char>) -> bool {
    exists|place: int| 0 <= place < listing.len() && (#[trigger] listing[place]).key == key
}

/// What a list says, whatever its order: for each key that it shows, the
/// locations that it gives for that key.
pub open spec fn content(listing: Seq<ResultView>) -> Map<Seq<char>, Map<Environment, Seq<char>>> {
    Map::new(
        |key: Seq<char>| has_key(listing, key),
        |key: Seq<char>|
            listing[choose|place: int|
                0 <= place < listing.len() && (#[trigger] listing[place]).key == key].url,
    )
}

/// Whether some batch of `target` holds a record with `key` that passes
/// `needle`.
pub open spec fn target_holds_key(
    batches: Seq<BatchView>,
    needle: Option<Seq<char>>,
    target: Environment,
    key: Seq<char>,
) -> bool {
    exists|batch: int, place: int|
        0 <= batch < batches.len() && 0 <= place < batches[batch].records.len()
            && batches[batch].target == target && (#[trigger] batches[batch].records[place]).key
            == key && record_matches(batches[batch].records[place], needle)
}

/// Whether `visit` is of a record that passes `needle` and stands, in a
/// batch of the visit's target, before the place `place` of batch `batch`.
pub open spec fn visited_before(
    batches: Seq<BatchView>,
    needle: Option<Seq<char>>,
    batch: int,
    place: int,
    visit: Visit,
) -> bool {
    record_matches(visit.record, needle) && exists|other: int, at: int|
        0 <= other < batches.len() && 0 <= at < batches[other].records.len() && (other < batch || (
        other == batch && at < place)) && batches[other].target == visit.target
            && #[trigger] batches[other].records[at] == visit.record
}

/// Whether `visit` is of a record that passes `needle` and stands, in a
/// batch of the visit's target, behind the place `place` of batch `batch`.
pub open spec fn visited_after(
    batches: Seq<BatchView>,
    needle: Option<Seq<char>>,
    batch: int,
    place: int,
    visit: Visit,
) -> bool {
    record_matches(visit.record, needle) && exists|other: int, at: int|
        0 <= other < batches.len() && 0 <= at < batches[other].records.len() && (other > batch || (
        other == batch && at > place)) && batches[other].target == visit.target
            && #[trigger] batches[other].records[at] == visit.record
}

/// The place in `records` of the last record with `key` that passes
/// `needle`, or -1 where there is none.
pub open spec fn last_place(records: Seq<RecordView>, needle: Option<Seq<char>>, key: Seq<char>) -> int
    decreases records.len(),
{
    if records.len() == 0 {
        -1
    } else if records.last().key == key && record_matches(records.last(), needle) {
        records.len() - 1
    } else {
        last_place(records.drop_last(), needle, key)
    }
}

/// Whether no two of the batches are of the same environment.
pub open spec fn one_batch_per_target(batches: Seq<BatchView>) -> bool {
    forall|first: int, second: int|
        0 <= first < second < batches.len() ==> (#[trigger] batches[first]).target != (
        #[trigger] batches[second]).target
}

/// Whether every batch of `batches` is among `others`.
pub open spec fn all_among(batches: Seq<BatchView>, others: Seq<BatchView>) -> bool {
    forall|place: int| 0 <= place < batches.len() ==> others.contains(#[trigger] batches[place])
}

/// The line that shows the location in one environment, or nothing where
/// the entry has none there.
pub open spec fn rendered_location(result: ResultView, target: Environment) -> Seq<char> {
    if result.url.contains_key(target) {
        target.name() + " \t "@ + result.url[target] + "\n"@
    } else {
        Seq::empty()
    }
}

/// The text that shows one consolidated entry: name and key, then the
/// description, then one line for each environment that has a location.
pub open spec fn rendered(result: ResultView) -> Seq<char> {
    result.name + " ("@ + result.key + ")\n"@ + result.description + "\n"@ + rendered_location(
        result,
        Environment::Dev,
    ) + rendered_location(result, Environment::Qa) + rendered_location(result, Environment::Uat)
        + rendered_location(result, Environment::Prod)
}

} // verus!

use vstd::prelude::*;
use crate::environment::Environment;
use crate::model::{
    consolidated, content, first_seen_keys, has_key, lists, merged, seeded, visits, with_url,
    BatchView, ResultView, Visit,
};

verus! {

/// The keys that were first seen are exactly the keys that have an entry,
/// none of them twice, and each entry stands under its own key.
pub proof fn keys_of_merged(seen: Seq<Visit>)
    ensures
        first_seen_keys(seen).no_duplicates(),
        forall|key: Seq<char>|
            first_seen_keys(seen).contains(key) <==> #[trigger] merged(seen).contains_key(key),
        forall|key: Seq<char>| #[trigger]
            merged(seen).contains_key(key) ==> merged(seen)[key].key == key,
    decreases seen.len(),
{
    if seen.len() > 0 {
        let earlier = seen.drop_last();
        keys_of_merged(earlier);
        let keys = first_seen_keys(earlier);
        let last = seen.last().record.key;
        let before = merged(earlier);
        assert forall|key: Seq<char>|
            first_seen_keys(seen).contains(key) <==> #[trigger] merged(seen).contains_key(
                key,
            ) by {
            assert(merged(seen).contains_key(key) <==> key == last || before.contains_key(key));
            assert(keys.contains(key) <==> before.contains_key(key));
            if !keys.contains(last) {
                let longer = keys.push(last);
                if longer.contains(key) {
                    let at = choose|at: int| 0 <= at < longer.len() && longer[at] == key;
                    if at < keys.len() {
                        assert(keys[at] == key);
                    }
                }
                if key == last {
                    assert(longer[keys.len() as int] == key);
                } else if keys.contains(key) {
                    let at = choose|at: int| 0 <= at < keys.len() && keys[at] == key;
                    assert(longer[at] == key);
                }
            }
        }
    }
}

/// A record whose key already has an entry changes that entry's location
/// for the record's environment and nothing else: no entry is added and
/// none moves.
pub proof fn absorbing_a_known_key(seen: Seq<Visit>, visit: Visit, position: int)
    requires
        0 <= position < first_seen_keys(seen).len(),
        first_seen_keys(seen)[position] == visit.record.key,
    ensures
        first_seen_keys(seen.push(visit)) == first_seen_keys(seen),
        merged(seen.push(visit)).dom() == merged(seen).dom(),
        consolidated(seen.push(visit)) == consolidated(seen).update(
            position,
            with_url(consolidated(seen)[position], visit.target, visit.record.url),
        ),
{
    keys_of_merged(seen);
    assert(seen.push(visit).drop_last() == seen);
}

/// A record whose key has no entry yet adds one at the end: it holds the
/// record's texts and the record's location for its environment.
pub proof fn absorbing_a_new_key(seen: Seq<Visit>, visit: Visit)
    requires
        !merged(seen).contains_key(visit.record.key),
    ensures
        first_seen_keys(seen.push(visit)) == first_seen_keys(seen).push(visit.record.key),
        merged(seen.push(visit)).dom() == merged(seen).dom().insert(visit.record.key),
        consolidated(seen.push(visit)) == consolidated(seen).push(
            with_url(seeded(visit.record), visit.target, visit.record.url),
        ),
{
    keys_of_merged(seen);
    assert(seen.push(visit).drop_last() == seen);
}

/// An entry exists for a key exactly when a record with that key was
/// absorbed.
pub proof fn entry_iff_key_seen(seen: Seq<Visit>, key: Seq<char>)
    ensures
        merged(seen).contains_key(key) <==> exists|place: int|
            0 <= place < seen.len() && (#[trigger] seen[place]).record.key == key,
    decreases seen.len(),
{
    if seen.len() > 0 {
        let earlier = seen.drop_last();
        entry_iff_key_seen(earlier, key);
        if merged(seen).contains_key(key) {
            if seen.last().record.key == key {
                assert(seen[seen.len() - 1].record.key == key);
            } else {
                let place = choose|place: int|
                    0 <= place < earlier.len() && (#[trigger] earlier[place]).record.key == key;
                assert(seen[place].record.key == key);
            }
        }
        if exists|place: int|
            0 <= place < seen.len() && (#[trigger] seen[place]).record.key == key {
            let place = choose|place: int|
                0 <= place < seen.len() && (#[trigger] seen[place]).record.key == key;
            if place < earlier.len() {
                assert(earlier[place].record.key == key);
            }
        }
    }
}

/// An entry has a location for an environment exactly when a record with
/// the entry's key was absorbed from a batch of that environment.
pub proof fn location_iff_record_seen(seen: Seq<Visit>, key: Seq<char>, target: Environment)
    ensures
        (merged(seen).contains_key(key) && merged(seen)[key].url.contains_key(target))
            <==> exists|place: int|
            0 <= place < seen.len() && (#[trigger] seen[place]).record.key == key
                && seen[place].target == target,
    decreases seen.len(),
{
    if seen.len() > 0 {
        let earlier = seen.drop_last();
        let last = seen.last();
        location_iff_record_seen(earlier, key, target);
        if merged(seen).contains_key(key) && merged(seen)[key].url.contains_key(target) {
            if last.record.key == key && last.target == target {
                assert(seen[seen.len() - 1].record.key == key);
            } else {
                assert(merged(earlier).contains_key(key) && merged(earlier)[key].url.contains_key(
                    target,
                ));
                let place = choose|place: int|
                    0 <= place < earlier.len() && (#[trigger] earlier[place]).record.key == key
                        && earlier[place].target == target;
                assert(seen[place].record.key == key && seen[place].target == target);
            }
        }
        if exists|place: int|
            0 <= place < seen.len() && (#[trigger] seen[place]).record.key == key
                && seen[place].target == target {
            let place = choose|place: int|
                0 <= place < seen.len() && (#[trigger] seen[place]).record.key == key
                    && seen[place].target == target;
            if place < earlier.len() {
                assert(earlier[place].record.key == key && earlier[place].target == target);
            }
        }
    }
}

/// Last write wins. The location that an entry gives for an environment is
/// that of the last record absorbed with the entry's key from that
/// environment.
pub proof fn last_write_wins(seen: Seq<Visit>, last: int)
    requires
        0 <= last < seen.len(),
        forall|later: int|
            last < later < seen.len() ==> !((#[trigger] seen[later]).record.key
                == seen[last].record.key && seen[later].target == seen[last].target),
    ensures
        merged(seen).contains_key(seen[last].record.key),
        merged(seen)[seen[last].record.key].url.contains_key(seen[last].target),
        merged(seen)[seen[last].record.key].url[seen[last].target]
            == seen[last].record.url,
    decreases seen.len(),
{
    if last < seen.len() - 1 {
        last_write_wins(seen.drop_last(), last);
    }
}

/// First record names the entry. Name and description of an entry are those
/// of the first record absorbed with the entry's key; later records with
/// that key do not change them.
pub proof fn first_record_names_the_entry(seen: Seq<Visit>, first: int)
    requires
        0 <= first < seen.len(),
        forall|before: int|
            0 <= before < first ==> (#[trigger] seen[before]).record.key
                != seen[first].record.key,
    ensures
        merged(seen).contains_key(seen[first].record.key),
        merged(seen)[seen[first].record.key].name == seen[first].record.name,
        merged(seen)[seen[first].record.key].description == seen[first].record.description,
        merged(seen)[seen[first].record.key].key == seen[first].record.key,
    decreases seen.len(),
{
    let earlier = seen.drop_last();
    let key = seen[first].record.key;
    if first < seen.len() - 1 {
        assert(earlier[first] == seen[first]);
        assert forall|before: int| 0 <= before < first implies (#[trigger] earlier[before]).record.key
            != earlier[first].record.key by {
            assert(earlier[before] == seen[before]);
        }
        first_record_names_the_entry(earlier, first);
    } else {
        entry_iff_key_seen(earlier, key);
        if merged(earlier).contains_key(key) {
            let place = choose|place: int|
                0 <= place < earlier.len() && (#[trigger] earlier[place]).record.key == key;
            assert(seen[place] == earlier[place]);
        }
    }
}

/// The consolidated list shows each entry of the key-to-entry mapping
/// exactly once.
pub proof fn consolidated_lists_merged(seen: Seq<Visit>)
    ensures
        lists(consolidated(seen), merged(seen)),
{
    keys_of_merged(seen);
    let keys = first_seen_keys(seen);
    let listing = consolidated(seen);
    assert forall|place: int| 0 <= place < listing.len() implies merged(seen).contains_key(
        (#[trigger] listing[place]).key,
    ) && merged(seen)[listing[place].key] == listing[place] by {
        assert(merged(seen).contains_key(keys[place]));
    }
    assert forall|key: Seq<char>| #[trigger] merged(seen).contains_key(key) implies exists|
        place: int,
    | 0 <= place < listing.len() && (#[trigger] listing[place]).key == key by {
        let place = choose|place: int| 0 <= place < keys.len() && keys[place] == key;
        assert(listing[place].key == key);
    }
    assert forall|first: int, second: int| 0 <= first < second < listing.len() implies (
    #[trigger] listing[first]).key != (#[trigger] listing[second]).key by {
        assert(merged(seen).contains_key(keys[first]));
        assert(merged(seen).contains_key(keys[second]));
    }
}

/// What a list of a key-to-entry mapping says is what the mapping says:
/// its keys, and under each key its locations.
pub proof fn content_of_a_listing(listing: Seq<ResultView>, by_key: Map<Seq<char>, ResultView>)
    requires
        lists(listing, by_key),
    ensures
        content(listing).dom() == by_key.dom(),
        forall|key: Seq<char>| #[trigger]
            by_key.contains_key(key) ==> content(listing)[key] == by_key[key].url,
{
    assert forall|key: Seq<char>| has_key(listing, key) <==> by_key.contains_key(key) by {
        if has_key(listing, key) {
            let place = choose|place: int|
                0 <= place < listing.len() && (#[trigger] listing[place]).key == key;
            assert(by_key.contains_key(listing[place].key));
        }
    }
    assert(content(listing).dom() =~= by_key.dom());
    assert forall|key: Seq<char>| #[trigger] by_key.contains_key(key) implies content(listing)[key]
        == by_key[key].url by {
        assert(has_key(listing, key));
        let place = choose|place: int|
            0 <= place < listing.len() && (#[trigger] listing[place]).key == key;
        assert(by_key[listing[place].key] == listing[place]);
    }
}

/// Idempotence. Two lists that show the consolidation of the same batches
/// under the same filter say the same, in whatever order each of them
/// stands: the same keys, and under each key the same locations.
pub proof fn consolidating_twice_says_the_same(
    batches: Seq<BatchView>,
    needle: Option<Seq<char>>,
    first: Seq<ResultView>,
    second: Seq<ResultView>,
)
    requires
        lists(first, merged(visits(batches, needle))),
        lists(second, merged(visits(batches, needle))),
    ensures
        content(first) == content(second),
{
    let by_key = merged(visits(batches, needle));
    content_of_a_listing(first, by_key);
    content_of_a_listing(second, by_key);
}

/// Nothing in, nothing out: the consolidated list is empty exactly when no
/// record was absorbed.
pub proof fn empty_iff_nothing_absorbed(seen: Seq<Visit>)
    ensures
        consolidated(seen).len() == 0 <==> seen.len() == 0,
{
}

} // verus!

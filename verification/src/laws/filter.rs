use vstd::prelude::*;
use crate::model::{normalized, record_matches, surviving, RecordView};
use crate::text::{is_substring, lowercase};

verus! {

/// The empty text occurs in every text.
pub proof fn empty_text_occurs_everywhere(hay: Seq<char>)
    ensures
        is_substring(Seq::empty(), hay),
{
    let needle = Seq::<char>::empty();
    assert(hay.subrange(0int, 0int + needle.len()) =~= needle);
}

/// The filter law. A record passes a filter exactly when the filter is
/// absent or empty, or when the lowercased filter occurs in the lowercased
/// name, in the lowercased description or in the lowercased key.
pub proof fn filter_law(record: RecordView, pattern: Option<Seq<char>>)
    ensures
        record_matches(record, normalized(pattern)) <==> (pattern matches Some(text) ==> text.len()
            == 0 || is_substring(lowercase(text), lowercase(record.name)) || is_substring(
            lowercase(text),
            lowercase(record.description),
        ) || is_substring(lowercase(text), lowercase(record.key))),
{
    if let Some(text) = pattern {
        if text.len() == 0 {
            assert(text =~= Seq::<char>::empty());
            empty_text_occurs_everywhere(lowercase(record.name));
        }
    }
}

/// The url is never compared with the filter: two records that agree in
/// name, description and key pass the same filters.
pub proof fn url_plays_no_part(first: RecordView, second: RecordView, needle: Option<Seq<char>>)
    requires
        first.name == second.name,
        first.description == second.description,
        first.key == second.key,
    ensures
        record_matches(first, needle) == record_matches(second, needle),
{
}

/// The records that survive a filter are the records that pass it.
pub proof fn surviving_are_the_passing(
    records: Seq<RecordView>,
    needle: Option<Seq<char>>,
    record: RecordView,
)
    ensures
        surviving(records, needle).contains(record) <==> records.contains(record) && record_matches(
            record,
            needle,
        ),
{
    if surviving(records, needle).contains(record) {
        records.lemma_filter_contains_rev(
            |record: RecordView| record_matches(record, needle),
            record,
        );
    }
}

/// Without a filter every record survives.
pub proof fn all_survive_without_filter(records: Seq<RecordView>)
    ensures
        surviving(records, None) == records,
    decreases records.len(),
{
    reveal(Seq::filter);
    if records.len() > 0 {
        all_survive_without_filter(records.drop_last());
    }
}

} // verus!

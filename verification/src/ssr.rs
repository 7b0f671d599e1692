use vstd::prelude::*;
use crate::environment::Environment;
use crate::laws::merging::{
    absorbing_a_known_key, absorbing_a_new_key, consolidated_lists_merged,
};
use crate::model::{
    batch_visits, consolidated, first_seen_keys, lists, merged, normalized, occurs_in_any,
    record_matches, rendered, rendered_location, seeded, visits, with_url, BatchView, RecordView,
    ResultView, Visit,
};
use crate::text::{contains, to_lowercase};
use vstd::hash_map::StringHashMap;

verus! {

/// One record of an environment's response.
#[derive(Debug)]
pub struct SsrRecord {
    pub name: String,
    pub description: String,
    pub key: String,
    pub url: String,
}

impl View for SsrRecord {
    type V = RecordView;

    open spec fn view(&self) -> RecordView {
        RecordView {
            name: self.name@,
            description: self.description@,
            key: self.key@,
            url: self.url@,
        }
    }
}

/// The texts of a sequence of records.
pub open spec fn record_views(records: Seq<SsrRecord>) -> Seq<RecordView> {
    records.map_values(|record: SsrRecord| record@)
}

/// Whether `needle` occurs in `name`, `description` or `key`.
pub fn found_in_any(needle: &str, name: &str, description: &str, key: &str) -> (found: bool)
    ensures
        found == occurs_in_any(needle@, name@, description@, key@),
{
    contains(name, needle) || contains(description, needle) || contains(key, needle)
}

/// Brings a filter into the form in which records are compared with it.
pub fn normalize(pattern: Option<String>) -> (needle: Option<String>)
    ensures
        needle.deep_view() == normalized(pattern.deep_view()),
{
    match pattern {
        Some(text) => {
            if text.as_str().is_empty() {
                Some(text)
            } else {
                Some(to_lowercase(text.as_str()))
            }
        },
        None => None,
    }
}

impl SsrRecord {
    /// A record with the given texts.
    pub fn new(name: &str, description: &str, key: &str, url: &str) -> (record: Self)
        ensures
            record@ == (RecordView { name: name@, description: description@, key: key@, url: url@ }),
    {
        SsrRecord {
            name: name.to_owned(),
            description: description.to_owned(),
            key: key.to_owned(),
            url: url.to_owned(),
        }
    }

    /// Whether this record passes `pattern`, a filter already normalized.
    pub fn matches_pattern(&self, pattern: &Option<String>) -> (matched: bool)
        ensures
            matched == record_matches(self@, pattern.deep_view()),
    {
        match pattern {
            Some(value) => found_in_any(
                value.as_str(),
                to_lowercase(self.name.as_str()).as_str(),
                to_lowercase(self.description.as_str()).as_str(),
                to_lowercase(self.key.as_str()).as_str(),
            ),
            None => true,
        }
    }
}

/// One consolidated entry. It holds a slot for each of the four
/// environments, in their order; a slot is empty until a location is set.
#[derive(Debug)]
pub struct SsrResult {
    name: String,
    description: String,
    key: String,
    url: Vec<(Environment, Option<String>)>,
}

impl View for SsrResult {
    type V = ResultView;

    closed spec fn view(&self) -> ResultView {
        ResultView {
            name: self.name@,
            description: self.description@,
            key: self.key@,
            url: Map::new(
                |target: Environment| self.url@[target.position()].1 is Some,
                |target: Environment| self.url@[target.position()].1->0@,
            ),
        }
    }
}

/// The texts of a sequence of consolidated entries.
pub open spec fn result_views(results: Seq<SsrResult>) -> Seq<ResultView> {
    results.map_values(|result: SsrResult| result@)
}

/// Puts `value` into the slot at `slot`, under the name of `target`.
fn fill(slots: &mut Vec<(Environment, Option<String>)>, slot: usize, target: Environment, value: String)
    requires
        slot < old(slots)@.len(),
    ensures
        final(slots)@ == old(slots)@.update(slot as int, (target, Some(value))),
    no_unwind
{
    slots[slot] = (target, Some(value));
}

impl SsrResult {
    #[verifier::type_invariant]
    spec fn well_formed(self) -> bool {
        &&& self.url@.len() == 4
        &&& forall|position: int|
            0 <= position < 4 ==> (#[trigger] self.url@[position]).0 == Environment::at(position)
    }

    /// An entry with the given texts and no location.
    pub fn new(name: &str, description: &str, key: &str) -> (result: Self)
        ensures
            result@ == (ResultView {
                name: name@,
                description: description@,
                key: key@,
                url: Map::empty(),
            }),
    {
        let mut targets: Vec<(Environment, Option<String>)> = Vec::new();
        targets.push((Environment::Dev, None));
        targets.push((Environment::Qa, None));
        targets.push((Environment::Uat, None));
        targets.push((Environment::Prod, None));
        let result = SsrResult {
            name: name.to_owned(),
            description: description.to_owned(),
            key: key.to_owned(),
            url: targets,
        };
        assert(result@.url =~= Map::empty());
        result
    }

    /// Sets the location for `target`, replacing an earlier one.
    pub fn update_url(&mut self, target: Environment, value: String)
        ensures
            final(self)@ == with_url(old(self)@, target, value@),
    {
        proof {
            use_type_invariant(&*self);
        }
        let slot = target.to_usize();
        fill(&mut self.url, slot, target, value);
        assert(self@.url =~= old(self)@.url.insert(target, value@));
    }

    /// The name of the first record seen with this entry's key.
    pub fn name(&self) -> (text: &str)
        ensures
            text@ == self@.name,
    {
        self.name.as_str()
    }

    /// The description of the first record seen with this entry's key.
    pub fn description(&self) -> (text: &str)
        ensures
            text@ == self@.description,
    {
        self.description.as_str()
    }

    /// The key that the records of this entry share.
    pub fn key(&self) -> (text: &str)
        ensures
            text@ == self@.key,
    {
        self.key.as_str()
    }

    /// The four slots, in the order of the environments: each names its
    /// environment and holds the location that is set for it, if any.
    pub fn url(&self) -> (slots: &Vec<(Environment, Option<String>)>)
        ensures
            slots@.len() == 4,
            forall|target: Environment|
                (#[trigger] slots@[target.position()]).0 == target && slots@[target.position()].1.deep_view()
                    == (if self@.url.contains_key(target) {
                    Some(self@.url[target])
                } else {
                    None
                }),
    {
        proof {
            use_type_invariant(self);
        }
        &self.url
    }

    /// The location in `target`, or `None` where no record was found there.
    pub fn url_for(&self, target: Environment) -> (location: Option<&str>)
        ensures
            match location {
                Some(text) => self@.url.contains_key(target) && text@ == self@.url[target],
                None => !self@.url.contains_key(target),
            },
    {
        proof {
            use_type_invariant(self);
        }
        match &self.url[target.to_usize()].1 {
            Some(text) => Some(text.as_str()),
            None => None,
        }
    }

    /// Adds to `text` the line that shows the location in `target`, if one
    /// is set.
    fn append_location(&self, text: &mut String, target: Environment)
        ensures
            final(text)@ == old(text)@ + rendered_location(self@, target),
    {
        proof {
            use_type_invariant(self);
        }
        if let Some(value) = &self.url[target.to_usize()].1 {
            text.append(target.as_str());
            text.append(" \t ");
            text.append(value.as_str());
            text.append("\n");
        }
    }

    /// The entry as text for a reader.
    pub fn to_string(&self) -> (text: String)
        ensures
            text@ == rendered(self@),
    {
        let mut text = String::new();
        text.append(self.name.as_str());
        text.append(" (");
        text.append(self.key.as_str());
        text.append(")\n");
        text.append(self.description.as_str());
        text.append("\n");
        self.append_location(&mut text, Environment::Dev);
        self.append_location(&mut text, Environment::Qa);
        self.append_location(&mut text, Environment::Uat);
        self.append_location(&mut text, Environment::Prod);
        text
    }
}

/// The records that one environment returned, in response order.
#[derive(Debug)]
pub struct SsrRecords {
    target: Environment,
    records: Vec<SsrRecord>,
}

impl View for SsrRecords {
    type V = BatchView;

    closed spec fn view(&self) -> BatchView {
        BatchView { target: self.target, records: record_views(self.records@) }
    }
}

impl SsrRecords {
    /// The batch of `target` with `records`.
    pub fn new(target: Environment, records: Vec<SsrRecord>) -> (batch: Self)
        ensures
            batch@ == (BatchView { target, records: record_views(records@) }),
    {
        SsrRecords { target, records }
    }
}

/// The batches of one run, in the order in which they were added, and the
/// filter that consolidation applies to their records.
pub struct Ssr {
    records: Vec<SsrRecords>,
    pattern: Option<String>,
}

/// Whether the list under construction and its index stand for the
/// consolidation of the records seen so far.
spec fn in_step(results: Seq<SsrResult>, index: Map<Seq<char>, usize>, seen: Seq<Visit>) -> bool {
    &&& result_views(results) == consolidated(seen)
    &&& index.dom() == merged(seen).dom()
    &&& forall|key: Seq<char>| #[trigger]
        index.contains_key(key) ==> index[key] < results.len() && first_seen_keys(
            seen,
        )[index[key] as int] == key
}

impl Ssr {
    /// The batches held, in the order in which they were added.
    pub closed spec fn batches(&self) -> Seq<BatchView> {
        self.records@.map_values(|batch: SsrRecords| batch@)
    }

    /// The filter in its normalized form, or `None` where every record
    /// passes.
    pub closed spec fn needle(&self) -> Option<Seq<char>> {
        self.pattern.deep_view()
    }

    /// No batches and no filter. `capacity` is the number of batches to
    /// make room for; where that much room cannot be had, none is set aside.
    pub fn new(capacity: usize) -> (ssr: Self)
        ensures
            ssr.batches() == Seq::<BatchView>::empty(),
            ssr.needle() is None,
    {
        let mut records: Vec<SsrRecords> = Vec::new();
        let _ = records.try_reserve(capacity);
        Ssr { records, pattern: None }
    }

    /// Replaces the filter by `pattern`, normalized.
    pub fn set_pattern(self, pattern: Option<String>) -> (ssr: Self)
        ensures
            ssr.batches() == self.batches(),
            ssr.needle() == normalized(pattern.deep_view()),
    {
        let pattern = normalize(pattern);
        Ssr { records: self.records, pattern }
    }

    /// Adds the batch of `target` behind those already held.
    pub fn add_records(&mut self, target: Environment, records: Vec<SsrRecord>)
        ensures
            final(self).batches() == old(self).batches().push(
                BatchView { target, records: record_views(records@) },
            ),
            final(self).needle() == old(self).needle(),
    {
        self.records.push(SsrRecords::new(target, records));
    }

    /// The environments of the batches held, in the order of the batches.
    pub fn targets(&self) -> (targets: Vec<Environment>)
        ensures
            targets@ == self.batches().map_values(|batch: BatchView| batch.target),
    {
        let mut targets: Vec<Environment> = Vec::new();
        for place in 0..self.records.len()
            invariant
                targets@ == self.batches().take(place as int).map_values(
                    |batch: BatchView| batch.target,
                ),
        {
            targets.push(self.records[place].target);
        }
        targets
    }

    /// Whether no batch was added.
    pub fn is_empty(&self) -> (empty: bool)
        ensures
            empty == (self.batches().len() == 0),
    {
        self.records.is_empty()
    }

    /// Merges the records that pass the filter into one entry per key, in
    /// the order in which the keys were first seen.
    pub fn consolidate(self) -> (results: Vec<SsrResult>)
        ensures
            result_views(results@) == consolidated(visits(self.batches(), self.needle())),
            lists(result_views(results@), merged(visits(self.batches(), self.needle()))),
    {
        let ghost batches = self.batches();
        let ghost needle = self.needle();
        let Ssr { records, pattern } = self;
        let mut results: Vec<SsrResult> = Vec::new();
        let mut index: StringHashMap<usize> = StringHashMap::new();
        let ghost mut seen: Seq<Visit> = Seq::empty();
        assert(result_views(results@) =~= consolidated(seen));
        for batch in outer: records
            invariant
                batches == outer.seq().map_values(|batch: SsrRecords| batch@),
                needle == pattern.deep_view(),
                seen == visits(batches.take(outer.index() as int), needle),
                in_step(results@, index@, seen),
        {
            let ghost before = seen;
            let SsrRecords { target, records: batch_records } = batch;
            let ghost taken = batch_records@;
            for record in inner: batch_records
                invariant
                    needle == pattern.deep_view(),
                    inner.seq() == taken,
                    seen == before + batch_visits(
                        BatchView {
                            target,
                            records: record_views(inner.seq().take(inner.index() as int)),
                        },
                        needle,
                    ),
                    in_step(results@, index@, seen),
            {
                let ghost earlier = record_views(inner.seq().take(inner.index() as int));
                let ghost visit = Visit { target, record: record@ };
                proof {
                    assert(record_views(inner.seq().take(inner.index() + 1)) =~= earlier.push(
                        record@,
                    ));
                    earlier.lemma_filter_push(
                        record@,
                        |record: RecordView| record_matches(record, needle),
                    );
                }
                if record.matches_pattern(&pattern) {
                    let found = match index.get(record.key.as_str()) {
                        Some(position) => Some(*position),
                        None => None,
                    };
                    match found {
                        Some(position) => {
                            proof {
                                assert(result_views(results@).len() == consolidated(seen).len());
                                absorbing_a_known_key(seen, visit, position as int);
                            }
                            let ghost listed = results@;
                            results[position].update_url(target, record.url);
                            proof {
                                assert(result_views(results@) =~= result_views(listed).update(
                                    position as int,
                                    with_url(listed[position as int]@, target, record@.url),
                                ));
                                seen = seen.push(visit);
                            }
                        },
                        None => {
                            proof {
                                absorbing_a_new_key(seen, visit);
                            }
                            let ghost listed = results@;
                            let mut result = SsrResult::new(
                                record.name.as_str(),
                                record.description.as_str(),
                                record.key.as_str(),
                            );
                            result.update_url(target, record.url);
                            index.insert(record.key, results.len());
                            results.push(result);
                            proof {
                                assert(result_views(results@) =~= result_views(listed).push(
                                    with_url(seeded(record@), target, record@.url),
                                ));
                                seen = seen.push(visit);
                            }
                        },
                    }
                }
            }
            proof {
                let upto = outer.index() as int;
                assert(taken.take(taken.len() as int) =~= taken);
                assert(batches.take(upto + 1).drop_last() =~= batches.take(upto));
            }
        }
        proof {
            assert(batches.take(batches.len() as int) =~= batches);
            consolidated_lists_merged(seen);
        }
        results
    }
}

} // verus!

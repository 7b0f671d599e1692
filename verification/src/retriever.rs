use vstd::prelude::*;
use crate::environment::Environment;
use crate::error::Error;
use crate::model::{
    collected, holds_no_record, normalized, record_matches, surviving, RecordView,
};
use crate::ssr::{normalize, record_views, Ssr, SsrRecord};

verus! {

/// One request to the endpoint: a GET of `url` with the single query
/// parameter `query`, a key and its value.
#[derive(Debug)]
pub struct Request {
    pub url: String,
    pub query: (String, String),
}

/// What came back for one request: the decoded records, or the error with
/// which the request failed.
pub type Response = Result<Vec<SsrRecord>, Error>;

/// The records of each response, or `None` for a failed one.
pub open spec fn response_views(responses: Seq<Response>) -> Seq<Option<Seq<RecordView>>> {
    responses.map_values(
        |response: Response|
            match response {
                Ok(records) => Some(record_views(records@)),
                Err(_) => None,
            },
    )
}

/// The environments of a list of query parameters.
pub open spec fn queried(targets: Seq<(String, Environment)>) -> Seq<Environment> {
    targets.map_values(|target: (String, Environment)| target.1)
}

/// The diagnostics of the failed responses, in the order of the responses.
pub open spec fn reported(responses: Seq<Response>) -> Seq<Seq<char>>
    decreases responses.len(),
{
    if responses.len() == 0 {
        Seq::empty()
    } else {
        let earlier = reported(responses.drop_last());
        match responses.last() {
            Ok(_) => earlier,
            Err(error) => earlier.push(error.diagnostic()),
        }
    }
}

/// Plans the requests of one run and turns their responses into batches.
pub struct SsrRetriever {
    url: String,
    targets: Vec<(String, Environment)>,
}

impl SsrRetriever {
    #[verifier::type_invariant]
    spec fn well_formed(self) -> bool {
        forall|place: int|
            0 <= place < self.targets@.len() ==> (#[trigger] self.targets@[place]).0@ == "env"@
    }

    /// The address that every request goes to.
    pub closed spec fn base(&self) -> Seq<char> {
        self.url@
    }

    /// The environments to ask, in the order in which they were added.
    pub closed spec fn asked(&self) -> Seq<Environment> {
        queried(self.targets@)
    }

    /// A run against the endpoint at `url`, with no environment to ask yet.
    pub fn new(url: &str) -> (retriever: Self)
        ensures
            retriever.base() == url@,
            retriever.asked() == Seq::<Environment>::empty(),
    {
        SsrRetriever { url: url.to_owned(), targets: Vec::new() }
    }

    /// Adds `targets` behind the environments already to be asked.
    pub fn add_targets(self, targets: &[Environment]) -> (retriever: Self)
        ensures
            retriever.base() == self.base(),
            retriever.asked() == self.asked() + targets@,
    {
        proof {
            use_type_invariant(&self);
        }
        let SsrRetriever { url, targets: mut values } = self;
        let ghost before = values@;
        for place in 0..targets.len()
            invariant
                forall|at: int| 0 <= at < values@.len() ==> (#[trigger] values@[at]).0@ == "env"@,
                queried(values@) == queried(before) + targets@.take(place as int),
        {
            let ghost earlier = values@;
            values.push(("env".to_owned(), targets[place]));
            assert(queried(values@) =~= queried(earlier).push(targets@[place as int]));
        }
        SsrRetriever { url, targets: values }
    }

    /// The requests of this run: one for each environment to ask, in order.
    /// Each goes to the same address and carries one parameter, `env`, with
    /// the name of its own environment.
    pub fn requests(&self) -> (requests: Vec<Request>)
        ensures
            requests@.len() == self.asked().len(),
            forall|place: int|
                0 <= place < requests@.len() ==> {
                    &&& (#[trigger] requests@[place]).url@ == self.base()
                    &&& requests@[place].query.0@ == "env"@
                    &&& requests@[place].query.1@ == self.asked()[place].name()
                },
    {
        proof {
            use_type_invariant(self);
        }
        let mut requests: Vec<Request> = Vec::new();
        for place in 0..self.targets.len()
            invariant
                forall|at: int|
                    0 <= at < self.targets@.len() ==> (#[trigger] self.targets@[at]).0@ == "env"@,
                requests@.len() == place,
                forall|at: int|
                    0 <= at < requests@.len() ==> {
                        &&& (#[trigger] requests@[at]).url@ == self.url@
                        &&& requests@[at].query.0@ == "env"@
                        &&& requests@[at].query.1@ == self.targets@[at].1.name()
                    },
        {
            let target = &self.targets[place];
            requests.push(
                Request { url: self.url.clone(), query: (target.0.clone(), target.1.to_string()) },
            );
        }
        requests
    }

    /// Turns the responses to this run's requests into its batches. The
    /// response at each place answers the request at the same place.
    pub fn get(&self, responses: Vec<Response>, pattern: Option<String>) -> (outcome: Result<
        Ssr,
        Error,
    >)
        ensures
            retrieved(
                self.asked(),
                response_views(responses@),
                normalized(pattern.deep_view()),
                outcome,
            ),
    {
        retrieve_from(&self.targets, responses, pattern)
    }
}

/// What a run returns for the batches it collected: they are handed on,
/// without a filter left to apply, as soon as one of them holds a record;
/// where none does, the run fails with `NoRecordsToProcess`.
pub open spec fn retrieved(
    targets: Seq<Environment>,
    responses: Seq<Option<Seq<RecordView>>>,
    needle: Option<Seq<char>>,
    outcome: Result<Ssr, Error>,
) -> bool {
    let batches = collected(targets, responses, needle);
    match outcome {
        Ok(ssr) => !holds_no_record(batches) && ssr.batches() == batches && ssr.needle() is None,
        Err(Error::NoRecordsToProcess) => holds_no_record(batches),
        Err(_) => false,
    }
}

/// The records of an answered request that pass `needle`, a filter already
/// normalized; the error of a failed request as it is.
pub fn get_records(response: Response, needle: &Option<String>) -> (outcome: Response)
    ensures
        match response {
            Ok(records) => outcome is Ok && record_views(outcome->Ok_0@) == surviving(
                record_views(records@),
                needle.deep_view(),
            ),
            Err(error) => outcome == Err::<Vec<SsrRecord>, Error>(error),
        },
{
    match response {
        Ok(records) => {
            let mut kept: Vec<SsrRecord> = Vec::new();
            let ghost all = records@;
            for record in given: records
                invariant
                    given.seq() == all,
                    record_views(kept@) == surviving(
                        record_views(all.take(given.index() as int)),
                        needle.deep_view(),
                    ),
            {
                proof {
                    let earlier = record_views(all.take(given.index() as int));
                    assert(record_views(all.take(given.index() + 1)) =~= earlier.push(record@));
                    earlier.lemma_filter_push(
                        record@,
                        |record: RecordView| record_matches(record, needle.deep_view()),
                    );
                }
                if record.matches_pattern(needle) {
                    kept.push(record);
                }
            }
            assert(all.take(all.len() as int) =~= all);
            Ok(kept)
        },
        Err(error) => Err(error),
    }
}

/// Collects the batches of a run from the responses to its requests, the
/// response at each place answering the target at the same place. `pattern`
/// is normalized first. A failed response adds no batch and does not end the
/// run; only a run without any record fails.
pub fn retrieve_from(
    targets: &Vec<(String, Environment)>,
    responses: Vec<Response>,
    pattern: Option<String>,
) -> (outcome: Result<Ssr, Error>)
    ensures
        retrieved(
            queried(targets@),
            response_views(responses@),
            normalized(pattern.deep_view()),
            outcome,
        ),
{
    let mut records = Ssr::new(targets.len());
    let needle = normalize(pattern);
    let mut any_record = false;
    let mut place: usize = 0;
    let ghost all = responses@;
    let ghost views = response_views(all);
    let ghost asked = queried(targets@);
    assert(all.len() == responses.len());
    for response in given: responses
        invariant
            given.seq() == all,
            all.len() <= usize::MAX,
            views == response_views(all),
            asked == queried(targets@),
            place == given.index(),
            records.batches() == collected(asked, views.take(place as int), needle.deep_view()),
            records.needle() is None,
            any_record == !holds_no_record(records.batches()),
    {
        proof {
            assert(views.take(place + 1).drop_last() =~= views.take(place as int));
        }
        if place < targets.len() {
            let target = targets[place].1;
            match get_records(response, &needle) {
                Ok(result) => {
                    let ghost before = records.batches();
                    if !result.is_empty() {
                        any_record = true;
                    }
                    records.add_records(target, result);
                    proof {
                        let added = records.batches().last();
                        assert(records.batches().drop_last() =~= before);
                        if holds_no_record(before) && added.records.len() == 0 {
                            assert forall|at: int| 0 <= at < records.batches().len() implies (
                            #[trigger] records.batches()[at]).records.len() == 0 by {
                                if at < before.len() {
                                    assert(before[at].records.len() == 0);
                                }
                            }
                        }
                        if !holds_no_record(before) {
                            let at = choose|at: int|
                                0 <= at < before.len() && (#[trigger] before[at]).records.len()
                                    != 0;
                            assert(records.batches()[at] == before[at]);
                        }
                        if added.records.len() != 0 {
                            assert(records.batches()[before.len() as int].records.len() != 0);
                        }
                    }
                },
                Err(_) => {},
            }
        }
        place = place + 1;
    }
    assert(views.take(views.len() as int) =~= views);
    if !any_record {
        return Err(Error::NoRecordsToProcess);
    }
    Ok(records)
}

/// The lines to report for the failed responses of a run, in their order.
pub fn diagnostics(responses: &Vec<Response>) -> (lines: Vec<String>)
    ensures
        lines.deep_view() == reported(responses@),
{
    let mut lines: Vec<String> = Vec::new();
    for place in 0..responses.len()
        invariant
            lines.deep_view() == reported(responses@.take(place as int)),
    {
        proof {
            assert(responses@.take(place + 1).drop_last() =~= responses@.take(place as int));
        }
        match &responses[place] {
            Ok(_) => {},
            Err(error) => {
                lines.push(error.to_diagnostic());
            },
        }
    }
    assert(responses@.take(responses@.len() as int) =~= responses@);
    lines
}

} // verus!

pub mod cli;
pub mod environment;
pub mod error;
pub mod laws;
pub mod model;
pub mod retriever;
pub mod ssr;
pub mod text;

pub use cli::Cli;
pub use environment::Environment;
pub use error::Error;
pub use retriever::{Request, Response, SsrRetriever};
pub use ssr::{Ssr, SsrRecord, SsrRecords, SsrResult};

use vstd::prelude::*;
use model::{collected, consolidated, holds_no_record, normalized, visits, RecordView};
use retriever::response_views;
use ssr::result_views;

verus! {

/// What a run shows for the responses to its requests: the consolidation of
/// the batches collected, or `NoRecordsToProcess` where they hold no record.
pub open spec fn processed(
    cli: Cli,
    responses: Seq<Option<Seq<RecordView>>>,
    outcome: Result<Vec<SsrResult>, Error>,
) -> bool {
    let batches = collected(cli.targets(), responses, normalized(cli.filter.deep_view()));
    match outcome {
        Ok(results) => !holds_no_record(batches) && result_views(results@) == consolidated(
            visits(batches, None),
        ),
        Err(Error::NoRecordsToProcess) => holds_no_record(batches),
        Err(_) => false,
    }
}

/// Runs the whole pipeline on the responses to the requests that `cli` asks
/// for, the response at each place answering the environment at the same
/// place of `cli.get_targets()`.
pub fn process(cli: Cli, responses: Vec<Response>) -> (outcome: Result<Vec<SsrResult>, Error>)
    ensures
        processed(cli, response_views(responses@), outcome),
{
    let retriever = SsrRetriever::new(cli.url.as_str()).add_targets(cli.get_targets().as_slice());
    match retriever.get(responses, cli.filter) {
        Ok(records) => Ok(records.consolidate()),
        Err(error) => Err(error),
    }
}

} // verus!

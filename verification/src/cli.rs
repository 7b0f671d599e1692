use vstd::prelude::*;
use crate::environment::Environment;

verus! {

/// The address that is asked where the command line names none.
pub const URL: &'static str = "https://ssr.xenial.com";

/// What the command line asks for.
#[derive(Debug)]
pub struct Cli {
    /// The environments to ask; none stands for all four.
    pub target_environment: Vec<Environment>,
    /// The address of the endpoint, without the environment parameter.
    pub url: String,
    /// The text that a record must hold to be shown.
    pub filter: Option<String>,
}

/// The four environments, in their order.
pub open spec fn every_target() -> Seq<Environment> {
    seq![Environment::Dev, Environment::Qa, Environment::Uat, Environment::Prod]
}

impl Cli {
    /// The environments that this command line stands for: those it names,
    /// in their order, or all four where it names none.
    pub open spec fn targets(self) -> Seq<Environment> {
        if self.target_environment@.len() == 0 {
            every_target()
        } else {
            self.target_environment@
        }
    }

    /// The environments to ask: those named, or all four where none is
    /// named.
    pub fn get_targets(&self) -> (targets: Vec<Environment>)
        ensures
            targets@ == self.targets(),
    {
        if self.target_environment.is_empty() {
            return Environment::all();
        }
        let mut results: Vec<Environment> = Vec::new();
        for place in 0..self.target_environment.len()
            invariant
                results@ == self.target_environment@.take(place as int),
        {
            results.push(self.target_environment[place]);
        }
        results
    }
}

impl Default for Cli {
    /// The command line without any argument: no environment named, the
    /// default address, no filter.
    fn default() -> (cli: Self)
        ensures
            cli.target_environment@.len() == 0,
            cli.url@ == URL@,
            cli.filter is None,
    {
        Cli { target_environment: Vec::new(), url: URL.to_owned(), filter: None }
    }
}

} // verus!

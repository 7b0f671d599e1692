use vstd::prelude::*;
use crate::error::Error;

verus! {

/// One of the four deployment locations that are queried.
#[derive(Debug, Clone, Copy, PartialEq, Eq, Structural)]
pub enum Environment {
    Dev,
    Qa,
    Uat,
    Prod,
}

impl Environment {
    /// The text that stands for this environment in a query and on the
    /// command line.
    pub open spec fn name(self) -> Seq<char> {
        match self {
            Environment::Dev => "dev"@,
            Environment::Qa => "qa"@,
            Environment::Uat => "uat"@,
            Environment::Prod => "prod"@,
        }
    }

    /// The place of this environment among the four.
    pub open spec fn position(self) -> int {
        match self {
            Environment::Dev => 0,
            Environment::Qa => 1,
            Environment::Uat => 2,
            Environment::Prod => 3,
        }
    }

    /// The environment at `position`, for a position below four.
    pub open spec fn at(position: int) -> Environment {
        if position == 0 {
            Environment::Dev
        } else if position == 1 {
            Environment::Qa
        } else if position == 2 {
            Environment::Uat
        } else {
            Environment::Prod
        }
    }

    /// All four environments, in their order.
    pub fn all() -> (targets: Vec<Environment>)
        ensures
            targets@ == seq![
                Environment::Dev,
                Environment::Qa,
                Environment::Uat,
                Environment::Prod,
            ],
    {
        let mut targets: Vec<Environment> = Vec::new();
        targets.push(Environment::Dev);
        targets.push(Environment::Qa);
        targets.push(Environment::Uat);
        targets.push(Environment::Prod);
        targets
    }

    pub fn to_usize(&self) -> (position: usize)
        ensures
            position == self.position(),
            position < 4,
    {
        match self {
            Environment::Dev => 0,
            Environment::Qa => 1,
            Environment::Uat => 2,
            Environment::Prod => 3,
        }
    }

    /// The environment's name as a static text.
    pub fn as_str(&self) -> (text: &'static str)
        ensures
            text@ == self.name(),
    {
        match self {
            Environment::Dev => "dev",
            Environment::Qa => "qa",
            Environment::Uat => "uat",
            Environment::Prod => "prod",
        }
    }

    pub fn to_string(&self) -> (text: String)
        ensures
            text@ == self.name(),
    {
        self.as_str().to_owned()
    }

    /// Reads an environment's name. Any text but the four names is refused,
    /// and the error holds that text.
    pub fn from_str(s: &str) -> (parsed: Result<Environment, Error>)
        ensures
            match parsed {
                Ok(target) => s@ == target.name(),
                Err(Error::InvalidEnvironmentTarget(text)) => text@ == s@ && forall|
                    target: Environment,
                | s@ != #[trigger] target.name(),
                Err(_) => false,
            },
    {
        if s.eq("dev") {
            return Ok(Environment::Dev);
        }
        if s.eq("qa") {
            return Ok(Environment::Qa);
        }
        if s.eq("uat") {
            return Ok(Environment::Uat);
        }
        if s.eq("prod") {
            return Ok(Environment::Prod);
        }
        Err(Error::InvalidEnvironmentTarget(s.to_owned()))
    }
}

/// Two environments with the same name are the same environment.
pub proof fn names_are_distinct(a: Environment, b: Environment)
    requires
        a.name() == b.name(),
    ensures
        a == b,
{
    reveal_strlit("dev");
    reveal_strlit("qa");
    reveal_strlit("uat");
    reveal_strlit("prod");
    assert("dev"@.len() == 3 && "uat"@.len() == 3 && "qa"@.len() == 2 && "prod"@.len() == 4);
    assert("dev"@[0] == 'd' && "uat"@[0] == 'u');
}

/// Reading back the text of an environment gives that environment: whatever
/// `from_str` returns for the text that `to_string` gives for `target`, it is
/// `Ok(target)`.
pub proof fn text_round_trip(target: Environment, text: Seq<char>, parsed: Result<Environment, Error>)
    requires
        text == target.name(),
        match parsed {
            Ok(found) => text == found.name(),
            Err(_) => forall|other: Environment| text != #[trigger] other.name(),
        },
    ensures
        parsed == Ok::<Environment, Error>(target),
{
    if let Ok(found) = parsed {
        names_are_distinct(found, target);
    }
}

} // verus!

//! The runtime environment the program is told to run in.

use crate::text::same_text;
use vstd::prelude::*;
use vstd::std_specs::convert::TryFromSpecImpl;
use vstd::string::*;

verus! {

/// The possible runtime environments.
#[derive(Clone, Debug, PartialEq, Eq, Structural)]
pub enum Environment {
    Test,
    Prod,
}

/// What `str::to_lowercase` returns for a text.
pub uninterp spec fn lowercase(s: Seq<char>) -> Seq<char>;

/// Calls `str::to_lowercase`. Trusted: the result is `lowercase` of the text.
#[verifier::external_body]
fn to_lowercase(s: &str) -> (r: String)
    ensures
        r@ == lowercase(s@),
{
    s.to_lowercase()
}

/// The environment that a name, already in lower case, stands for.
pub open spec fn environment_named(lower: Seq<char>) -> Option<Environment> {
    if lower == "test"@ {
        Some(Environment::Test)
    } else if lower == "production"@ || lower == "prod"@ {
        Some(Environment::Prod)
    } else {
        None
    }
}

/// The message for a name that stands for no environment.
pub open spec fn unsupported_message(lower: Seq<char>) -> Seq<char> {
    lower + " is not a supported environment. Use either `test` or `prod`."@
}

impl Environment {
    /// The name under which the environment's settings are kept.
    pub fn as_str(&self) -> (r: &'static str)
        ensures
            r@ == match self {
                Environment::Test => "test"@,
                Environment::Prod => "prod"@,
            },
    {
        match self {
            Environment::Test => "test",
            Environment::Prod => "prod",
        }
    }

    /// Reads a name that is already in lower case.
    pub fn from_lowercase(lower: &str) -> (r: Result<Environment, String>)
        ensures
            match r {
                Ok(e) => environment_named(lower@) == Some(e),
                Err(msg) => environment_named(lower@) is None && msg@ == unsupported_message(
                    lower@,
                ),
            },
    {
        if same_text(lower, "test") {
            Ok(Environment::Test)
        } else if same_text(lower, "production") || same_text(lower, "prod") {
            Ok(Environment::Prod)
        } else {
            let mut msg = String::from_str(lower);
            msg.append(" is not a supported environment. Use either `test` or `prod`.");
            Err(msg)
        }
    }
}

impl TryFrom<String> for Environment {
    type Error = String;

    /// Reads a name in any letter case: `test`, `prod` or `production`.
    fn try_from(s: String) -> (r: Result<Environment, String>)
        ensures
            match r {
                Ok(e) => environment_named(lowercase(s@)) == Some(e),
                Err(msg) => environment_named(lowercase(s@)) is None && msg@
                    == unsupported_message(lowercase(s@)),
            },
    {
        let lower = to_lowercase(s.as_str());
        Environment::from_lowercase(lower.as_str())
    }
}

/// The error of a failed conversion is a fresh `String`, of which a specification can
/// state the text but not the value. So the conversion does not follow a spec function:
/// what it returns is stated by the `ensures` of `try_from` itself.
impl TryFromSpecImpl<String> for Environment {
    open spec fn obeys_try_from_spec() -> bool {
        false
    }

    open spec fn try_from_spec(s: String) -> Result<Environment, String> {
        match environment_named(lowercase(s@)) {
            Some(e) => Ok(e),
            None => Err(s),
        }
    }
}

} // verus!

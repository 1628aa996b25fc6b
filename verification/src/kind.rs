//! The closed taxonomy of environment kinds and its token mapping.

use vstd::prelude::*;

use crate::error::Error;
use crate::text::str_eq;

verus! {

/// The closed set of environment categories an application can load.
#[derive(Clone, Copy, Debug, PartialEq, Eq, Hash, Structural)]
pub enum Kind {
    /// Shared variables applied before any kind-specific file.
    Common,
    /// Development-specific variables.
    Development,
    /// Test-specific variables.
    Test,
    /// Integration-specific variables.
    Integration,
    /// Staging-specific variables.
    Staging,
    /// Production-specific variables.
    Production,
}

/// The canonical short token of each kind, used in file names and parsing.
pub open spec fn kind_token(kind: Kind) -> Seq<char> {
    match kind {
        Kind::Common => "common"@,
        Kind::Development => "dev"@,
        Kind::Test => "test"@,
        Kind::Integration => "int"@,
        Kind::Staging => "stage"@,
        Kind::Production => "prod"@,
    }
}

/// The kind a token names, or `None` when the token is not canonical.
/// The match is exact: no trimming and no case folding.
pub open spec fn kind_of_token(token: Seq<char>) -> Option<Kind> {
    if token == "common"@ {
        Some(Kind::Common)
    } else if token == "dev"@ {
        Some(Kind::Development)
    } else if token == "test"@ {
        Some(Kind::Test)
    } else if token == "int"@ {
        Some(Kind::Integration)
    } else if token == "stage"@ {
        Some(Kind::Staging)
    } else if token == "prod"@ {
        Some(Kind::Production)
    } else {
        None
    }
}

impl Kind {
    /// The canonical token of this kind.
    pub fn to_token(&self) -> (r: &'static str)
        ensures
            r@ == kind_token(*self),
    {
        match self {
            Kind::Common => "common",
            Kind::Development => "dev",
            Kind::Test => "test",
            Kind::Integration => "int",
            Kind::Staging => "stage",
            Kind::Production => "prod",
        }
    }

    /// The canonical token of this kind as an owned string.
    pub fn token_string(&self) -> (r: String)
        ensures
            r@ == kind_token(*self),
    {
        self.to_token().to_owned()
    }
}

/// Parse a kind from its canonical token; any other string is rejected
/// with `InvalidKind` carrying the offending token.
pub fn parse_kind(token: &str) -> (r: Result<Kind, Error>)
    ensures
        match r {
            Ok(kind) => kind_of_token(token@) == Some(kind),
            Err(e) => kind_of_token(token@) is None && (e matches Error::InvalidKind(t)
                && t@ == token@),
        },
{
    if str_eq(token, "common") {
        Ok(Kind::Common)
    } else if str_eq(token, "dev") {
        Ok(Kind::Development)
    } else if str_eq(token, "test") {
        Ok(Kind::Test)
    } else if str_eq(token, "int") {
        Ok(Kind::Integration)
    } else if str_eq(token, "stage") {
        Ok(Kind::Staging)
    } else if str_eq(token, "prod") {
        Ok(Kind::Production)
    } else {
        Err(Error::InvalidKind(token.to_owned()))
    }
}

/// Law: the token mapping round-trips — every kind's canonical token
/// parses back to exactly that kind.
pub proof fn lemma_token_round_trip(kind: Kind)
    ensures
        kind_of_token(kind_token(kind)) == Some(kind),
{
    reveal_strlit("common");
    reveal_strlit("dev");
    reveal_strlit("test");
    reveal_strlit("int");
    reveal_strlit("stage");
    reveal_strlit("prod");
    assert("dev"@.len() != "common"@.len());
    assert("test"@.len() != "common"@.len());
    assert("int"@.len() != "common"@.len());
    assert("stage"@.len() != "common"@.len());
    assert("prod"@.len() != "common"@.len());
    assert("int"@[0] != "dev"@[0]);
    assert("test"@.len() != "dev"@.len());
    assert("stage"@.len() != "dev"@.len());
    assert("prod"@[0] != "test"@[0]);
    assert("stage"@.len() != "test"@.len());
    assert("stage"@.len() != "int"@.len());
    assert("prod"@.len() != "int"@.len());
    assert("prod"@.len() != "stage"@.len());
}

/// Law: a token outside the canonical six never parses to a kind.
pub proof fn lemma_unknown_token_rejected(token: Seq<char>)
    requires
        token != "common"@,
        token != "dev"@,
        token != "test"@,
        token != "int"@,
        token != "stage"@,
        token != "prod"@,
    ensures
        kind_of_token(token) is None,
{
}

} // verus!

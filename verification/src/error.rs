//! The failures that handling an event can end in.
use vstd::prelude::*;
use vstd::string::to_string_from_display_ensures;

verus! {

/// An input or output failure of the operating system: `std::io::Error`,
/// whose inside is not looked at here.
#[verifier::external_type_specification]
#[verifier::external_body]
pub struct ExIoError(std::io::Error);

/// A failure to read a signing key or to sign with it:
/// `jsonwebtoken::errors::Error`, whose inside is not looked at here.
#[verifier::external_type_specification]
#[verifier::external_body]
pub struct ExJsonWebTokenError(jsonwebtoken::errors::Error);

/// A failure of a call to the hosting service: `octocrab::Error`, whose
/// inside is not looked at here.
#[verifier::external_type_specification]
#[verifier::external_body]
pub struct ExOctocrabError(octocrab::Error);

/// A failure to read a configuration text: `toml::de::Error`, whose inside
/// is not looked at here.
#[verifier::external_type_specification]
#[verifier::external_body]
pub struct ExTomlError(toml::de::Error);

/// A background task that panicked or was cancelled:
/// `tokio::task::JoinError`, whose inside is not looked at here.
#[verifier::external_type_specification]
#[verifier::external_body]
pub struct ExJoinError(tokio::task::JoinError);

/// One error of a GraphQL reply.
#[derive(Debug)]
pub struct GraphqlError {
    pub message: String,
}

/// The errors of a GraphQL reply.
#[derive(Debug)]
pub struct GraphqlErrors {
    pub errors: Vec<GraphqlError>,
}

/// Why handling an event failed.
#[derive(Debug)]
pub enum ChetterError {
    /// The event lacks something that handling it needs.
    GithubParseError(String),
    IOError(std::io::Error),
    JSONWebTokenError(jsonwebtoken::errors::Error),
    /// A call to the hosting service failed.
    Octocrab(octocrab::Error),
    TOMLParseError(toml::de::Error),
    JoinError(tokio::task::JoinError),
    /// The hosting service answered a GraphQL request with errors.
    GithubGraphqlError(GraphqlErrors),
}

/// `parts` written one after the other with `sep` between neighbours.
pub open spec fn joined(parts: Seq<Seq<char>>, sep: Seq<char>) -> Seq<char>
    decreases parts.len(),
{
    if parts.len() == 0 {
        Seq::empty()
    } else if parts.len() == 1 {
        parts[0]
    } else {
        joined(parts.drop_last(), sep) + sep + parts.last()
    }
}

impl GraphqlErrors {
    /// The messages of the errors, in order.
    pub open spec fn messages(self) -> Seq<Seq<char>> {
        self.errors@.map_values(|e: GraphqlError| e.message@)
    }

    /// What `to_string` writes for a GraphQL failure with these errors.
    pub open spec fn text(self) -> Seq<char> {
        "GraphQL Errors: "@ + joined(self.messages(), " | "@)
    }

    /// The messages behind a common heading, separated by bars.
    pub fn to_string(&self) -> (s: String)
        ensures
            s@ == self.text(),
    {
        let mut out = String::from_str("GraphQL Errors: ");
        let n = self.errors.len();
        let mut i: usize = 0;
        while i < n
            invariant
                i <= n,
                n == self.errors.len(),
                out@ == "GraphQL Errors: "@ + joined(self.messages().take(i as int), " | "@),
            decreases n - i,
        {
            let ghost before = self.messages().take(i as int);
            let ghost after = self.messages().take(i + 1);
            assert(after.drop_last() =~= before);
            assert(after.last() == self.errors[i as int].message@);
            if i > 0 {
                out.append(" | ");
            }
            out.append(self.errors[i].message.as_str());
            assert(out@ =~= "GraphQL Errors: "@ + joined(after, " | "@));
            i = i + 1;
        }
        assert(self.messages().take(n as int) =~= self.messages());
        out
    }
}

impl ChetterError {
    /// Whether this is the complaint `text` about an event.
    pub open spec fn is_parse_error(self, text: Seq<char>) -> bool {
        match self {
            ChetterError::GithubParseError(message) => message@ == text,
            _ => false,
        }
    }

    /// The error as a line of text: the complaint about the event, the
    /// GraphQL messages, or what the failure inside writes of itself.
    pub fn to_string(&self) -> (s: String)
        ensures
            match *self {
                ChetterError::GithubParseError(message) => s@ == message@,
                ChetterError::IOError(e) => to_string_from_display_ensures(&e, s),
                ChetterError::JSONWebTokenError(e) => to_string_from_display_ensures(&e, s),
                ChetterError::Octocrab(e) => to_string_from_display_ensures(&e, s),
                ChetterError::TOMLParseError(e) => to_string_from_display_ensures(&e, s),
                ChetterError::JoinError(e) => to_string_from_display_ensures(&e, s),
                ChetterError::GithubGraphqlError(e) => s@ == e.text(),
            },
    {
        match self {
            ChetterError::GithubParseError(message) => message.clone(),
            ChetterError::IOError(e) => e.to_string(),
            ChetterError::JSONWebTokenError(e) => e.to_string(),
            ChetterError::Octocrab(e) => e.to_string(),
            ChetterError::TOMLParseError(e) => e.to_string(),
            ChetterError::JoinError(e) => e.to_string(),
            ChetterError::GithubGraphqlError(e) => e.to_string(),
        }
    }
}

impl From<std::io::Error> for ChetterError {
    fn from(error: std::io::Error) -> (r: Self) {
        Self::IOError(error)
    }
}

impl vstd::std_specs::convert::FromSpecImpl<std::io::Error> for ChetterError {
    open spec fn obeys_from_spec() -> bool {
        true
    }

    open spec fn from_spec(error: std::io::Error) -> Self {
        Self::IOError(error)
    }
}

impl From<jsonwebtoken::errors::Error> for ChetterError {
    fn from(error: jsonwebtoken::errors::Error) -> (r: Self) {
        Self::JSONWebTokenError(error)
    }
}

impl vstd::std_specs::convert::FromSpecImpl<jsonwebtoken::errors::Error> for ChetterError {
    open spec fn obeys_from_spec() -> bool {
        true
    }

    open spec fn from_spec(error: jsonwebtoken::errors::Error) -> Self {
        Self::JSONWebTokenError(error)
    }
}

impl From<toml::de::Error> for ChetterError {
    fn from(error: toml::de::Error) -> (r: Self) {
        Self::TOMLParseError(error)
    }
}

impl vstd::std_specs::convert::FromSpecImpl<toml::de::Error> for ChetterError {
    open spec fn obeys_from_spec() -> bool {
        true
    }

    open spec fn from_spec(error: toml::de::Error) -> Self {
        Self::TOMLParseError(error)
    }
}

impl From<octocrab::Error> for ChetterError {
    fn from(error: octocrab::Error) -> (r: Self) {
        Self::Octocrab(error)
    }
}

impl vstd::std_specs::convert::FromSpecImpl<octocrab::Error> for ChetterError {
    open spec fn obeys_from_spec() -> bool {
        true
    }

    open spec fn from_spec(error: octocrab::Error) -> Self {
        Self::Octocrab(error)
    }
}

impl From<tokio::task::JoinError> for ChetterError {
    fn from(error: tokio::task::JoinError) -> (r: Self) {
        Self::JoinError(error)
    }
}

impl vstd::std_specs::convert::FromSpecImpl<tokio::task::JoinError> for ChetterError {
    open spec fn obeys_from_spec() -> bool {
        true
    }

    open spec fn from_spec(error: tokio::task::JoinError) -> Self {
        Self::JoinError(error)
    }
}

} // verus!

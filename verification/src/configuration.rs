//! Configuration of the application: its runtime environment, where its
//! settings are read from, and the database connection they describe.

use vstd::prelude::*;

use crate::text::{ascii_lowercase, is_ascii_text, spec_to_lowercase, str_equal, to_lowercase};
use vstd::string::StringExecFns;

verus! {

/// The possible runtime environments of the application.
#[derive(Clone, Debug, PartialEq, Eq, Copy, Structural)]
pub enum Environment {
    Development,
    Testing,
    Production,
}

/// The lower-case name of an environment.
pub open spec fn environment_name(e: Environment) -> Seq<char> {
    match e {
        Environment::Development => "development"@,
        Environment::Testing => "testing"@,
        Environment::Production => "production"@,
    }
}

impl Environment {
    /// The lower-case name of the environment.
    pub fn as_str(&self) -> (r: &'static str)
        ensures
            r@ == environment_name(*self),
    {
        match self {
            Environment::Development => "development",
            Environment::Testing => "testing",
            Environment::Production => "production",
        }
    }
}

/// The name of an environment reads back to that environment, and it is
/// the only lower-case name that does.
pub proof fn lemma_environment_name_roundtrip(e: Environment, lower: Seq<char>)
    ensures
        environment_from_lowercase(environment_name(e)) == Ok::<Environment, Seq<char>>(e),
        environment_from_lowercase(lower) == Ok::<Environment, Seq<char>>(e) ==> lower == environment_name(e),
{
    reveal_strlit("development");
    reveal_strlit("testing");
    reveal_strlit("production");
    assert("development"@[0] != "testing"@[0]);
    assert("development"@[0] != "production"@[0]);
    assert("testing"@[0] != "production"@[0]);
}

/// Names are read without regard to case: an ASCII text whose ASCII lower
/// case is the name of an environment reads to that environment (the
/// lower-case form `try_from` reads is the ASCII lower case of an ASCII
/// text).
pub proof fn lemma_environment_name_any_case(e: Environment, s: Seq<char>)
    requires
        ascii_lowercase(s) == environment_name(e),
    ensures
        environment_from_lowercase(ascii_lowercase(s)) == Ok::<Environment, Seq<char>>(e),
{
    lemma_environment_name_roundtrip(e, ascii_lowercase(s));
}

/// The text that follows the rejected name in the error of `try_from`.
pub open spec fn unsupported_environment_suffix() -> Seq<char> {
    " is not a supported environment. Use either `development`, `testing` or `production`."@
}

/// What `try_from` gives for a name whose lower-case form is `lower`.
pub open spec fn environment_from_lowercase(lower: Seq<char>) -> Result<Environment, Seq<char>> {
    if lower == "development"@ {
        Ok(Environment::Development)
    } else if lower == "testing"@ {
        Ok(Environment::Testing)
    } else if lower == "production"@ {
        Ok(Environment::Production)
    } else {
        Err(lower + unsupported_environment_suffix())
    }
}

impl Environment {
    /// The environment of a name already in lower case: one of
    /// `development`, `testing` or `production`; any other name is rejected
    /// with a message that names it.
    pub fn from_lowercase(lower: String) -> (r: Result<Environment, String>)
        ensures
            match (r, environment_from_lowercase(lower@)) {
                (Ok(e), Ok(f)) => e == f,
                (Err(m), Err(n)) => m@ == n,
                _ => false,
            },
    {
        if str_equal(lower.as_str(), "development") {
            Ok(Environment::Development)
        } else if str_equal(lower.as_str(), "testing") {
            Ok(Environment::Testing)
        } else if str_equal(lower.as_str(), "production") {
            Ok(Environment::Production)
        } else {
            let msg = lower.concat(
                " is not a supported environment. Use either `development`, `testing` or `production`.",
            );
            Err(msg)
        }
    }

    /// Parses an environment name, ignoring case: the lower-case form of
    /// `s` (`str::to_lowercase`) must be one of `development`, `testing` or
    /// `production`; any other name is rejected with a message that names it
    /// (in lower case).
    pub fn try_from(s: String) -> (r: Result<Environment, String>)
        ensures
            match (r, environment_from_lowercase(spec_to_lowercase(s@))) {
                (Ok(e), Ok(f)) => e == f,
                (Err(m), Err(n)) => m@ == n,
                _ => false,
            },
            is_ascii_text(s@) ==> spec_to_lowercase(s@) == ascii_lowercase(s@),
    {
        let lower = to_lowercase(s.as_str());
        Environment::from_lowercase(lower)
    }
}

impl Environment {
    /// The environment named by the `APP_ENVIRONMENT` variable: development
    /// when it is not set, otherwise its value parsed by `try_from`.
    pub fn from_variable(value: Option<String>) -> (r: Result<Environment, String>)
        ensures
            value is None ==> r == Ok::<Environment, String>(Environment::Development),
            value matches Some(s) ==> match (r, environment_from_lowercase(spec_to_lowercase(s@))) {
                (Ok(e), Ok(f)) => e == f,
                (Err(m), Err(n)) => m@ == n,
                _ => false,
            },
    {
        match value {
            None => Ok(Environment::Development),
            Some(s) => Environment::try_from(s),
        }
    }

    /// The name the environment is displayed as: its lower-case name.
    pub fn to_string(&self) -> (r: String)
        ensures
            r@ == environment_name(*self),
    {
        String::from_str(self.as_str())
    }

    /// The settings file of the environment: its name followed by `.yaml`.
    pub fn config_file_name(&self) -> (r: String)
        ensures
            r@ == environment_name(*self) + ".yaml"@,
    {
        String::from_str(self.as_str()).concat(".yaml")
    }
}

/// The settings of the application server.
#[derive(Debug, Clone, PartialEq, Eq)]
pub struct ApplicationConfiguration {
    /// The address the server binds to.
    pub ip_address: String,
    /// The port the server binds to.
    pub port: u16,
    /// The secret that tokens are signed with.
    pub token_secret: String,
}

/// The settings of the database connection.
#[derive(Debug, Clone, PartialEq, Eq)]
pub struct DatabaseConfiguration {
    /// Database host.
    pub host: String,
    /// Database port.
    pub port: u16,
    /// User name to log in with.
    pub username: String,
    /// Password to log in with.
    pub password: String,
    /// The database to use.
    pub database_name: String,
    /// Whether the connection must use TLS.
    pub require_ssl: bool,
}

/// The settings of the application.
#[derive(Debug, Clone, PartialEq, Eq)]
pub struct Configuration {
    /// Application server settings.
    pub application: ApplicationConfiguration,
    /// Database settings.
    pub database: DatabaseConfiguration,
}

/// Whether a database connection uses TLS.
#[derive(Debug, Clone, Copy, PartialEq, Eq, Structural)]
pub enum SslMode {
    /// TLS is required.
    Require,
    /// TLS is used when the server offers it.
    Prefer,
}

/// The options a database connection is opened with (without reading a
/// password file).
#[derive(Debug, Clone, PartialEq, Eq)]
pub struct ConnectOptions {
    pub host: String,
    pub port: u16,
    pub username: String,
    pub password: String,
    pub database: String,
    pub ssl_mode: SslMode,
}

impl DatabaseConfiguration {
    /// The options of the connection the settings describe: TLS required
    /// when `require_ssl` is set, preferred otherwise.
    pub fn connection(&self) -> (r: ConnectOptions)
        ensures
            r.host@ == self.host@,
            r.port == self.port,
            r.username@ == self.username@,
            r.password@ == self.password@,
            r.database@ == self.database_name@,
            r.ssl_mode == (if self.require_ssl { SslMode::Require } else { SslMode::Prefer }),
    {
        let ssl_mode = if self.require_ssl {
            SslMode::Require
        } else {
            SslMode::Prefer
        };
        ConnectOptions {
            host: String::from_str(self.host.as_str()),
            port: self.port,
            username: String::from_str(self.username.as_str()),
            password: String::from_str(self.password.as_str()),
            database: String::from_str(self.database_name.as_str()),
            ssl_mode,
        }
    }
}

} // verus!

//! Configuration values and the connection strings derived from them.

use vstd::prelude::*;
use vstd::string::StringExecFns;

use crate::domain::str_chars_eq;
use crate::domain::valid_email;
use crate::domain::SubscriberEmail;

verus! {

/// Where the HTTP server listens.
pub struct ApplicationSettings {
    pub port: u16,
    pub host: String,
}

/// How to reach the relational store.
pub struct DatabaseSettings {
    pub username: String,
    pub password: String,
    pub port: u16,
    pub host: String,
    pub database_name: String,
    pub require_ssl: bool,
}

/// How to reach the mail transport.
pub struct EmailClientSettings {
    pub base_url: String,
    pub sender_email: String,
    pub authorization_token: String,
    pub timeout_milliseconds: u64,
}

/// Everything the service is configured with.
pub struct Settings {
    pub database: DatabaseSettings,
    pub application: ApplicationSettings,
    pub email_client: EmailClientSettings,
}

/// The public base URL links in outgoing mail are built against.
pub struct ApplicationBaseUrl(pub String);

/// The decimal digit for one value below ten.
pub open spec fn dec_digit(n: int) -> char {
    if n == 0 {
        '0'
    } else if n == 1 {
        '1'
    } else if n == 2 {
        '2'
    } else if n == 3 {
        '3'
    } else if n == 4 {
        '4'
    } else if n == 5 {
        '5'
    } else if n == 6 {
        '6'
    } else if n == 7 {
        '7'
    } else if n == 8 {
        '8'
    } else {
        '9'
    }
}

/// The decimal representation of a number, most significant digit first.
pub open spec fn dec_rep(n: nat) -> Seq<char>
    decreases n,
{
    if n < 10 {
        seq![dec_digit(n as int)]
    } else {
        dec_rep(n / 10).push(dec_digit((n % 10) as int))
    }
}

fn digit_char(d: u16) -> (c: char)
    requires
        d < 10,
    ensures
        c == dec_digit(d as int),
{
    match d {
        0 => '0',
        1 => '1',
        2 => '2',
        3 => '3',
        4 => '4',
        5 => '5',
        6 => '6',
        7 => '7',
        8 => '8',
        _ => '9',
    }
}

/// Relies on `String::push`: appends exactly one character.
#[verifier::external_body]
fn string_push(s: &mut String, c: char)
    ensures
        final(s)@ == old(s)@.push(c),
{
    s.push(c);
}

/// Renders a port number in decimal.
pub fn u16_to_dec(n: u16) -> (s: String)
    ensures
        s@ == dec_rep(n as nat),
    decreases n,
{
    if n < 10 {
        let mut s = String::new();
        string_push(&mut s, digit_char(n));
        proof {
            assert(s@ =~= dec_rep(n as nat));
        }
        s
    } else {
        proof {
            assert(n / 10 < n) by (nonlinear_arith)
                requires
                    n >= 10,
            ;
        }
        let mut s = u16_to_dec(n / 10);
        string_push(&mut s, digit_char(n % 10));
        s
    }
}

/// The connection string for the configured database.
pub open spec fn spec_connection_string(db: &DatabaseSettings) -> Seq<char> {
    "postgres://"@ + db.username@ + ":"@ + db.password@ + "@"@ + db.host@ + ":"@ + dec_rep(
        db.port as nat,
    ) + "/"@ + db.database_name@
}

/// The connection string for the configured server, without a database.
pub open spec fn spec_connection_string_without_db(db: &DatabaseSettings) -> Seq<char> {
    "postgres://"@ + db.username@ + ":"@ + db.password@ + "@"@ + db.host@ + ":"@ + dec_rep(
        db.port as nat,
    )
}

impl DatabaseSettings {
    pub fn get_connection_string(&self) -> (r: String)
        ensures
            r@ == spec_connection_string(self),
    {
        let mut r = self.get_connection_string_without_db();
        r.append("/");
        r.append(self.database_name.as_str());
        proof {
            assert(r@ =~= spec_connection_string(self));
        }
        r
    }

    pub fn get_connection_string_without_db(&self) -> (r: String)
        ensures
            r@ == spec_connection_string_without_db(self),
    {
        let mut r = "postgres://".to_owned();
        r.append(self.username.as_str());
        r.append(":");
        r.append(self.password.as_str());
        r.append("@");
        r.append(self.host.as_str());
        r.append(":");
        let port = u16_to_dec(self.port);
        r.append(port.as_str());
        proof {
            assert(r@ =~= spec_connection_string_without_db(self));
        }
        r
    }
}

impl EmailClientSettings {
    /// The configured sender address, held to the same format rules as a
    /// subscriber's.
    pub fn sender(&self) -> (r: Result<SubscriberEmail, String>)
        ensures
            valid_email(self.sender_email@) ==> (r matches Ok(e) && e@ == self.sender_email@),
            !valid_email(self.sender_email@) ==> (r matches Err(m) && m@ == self.sender_email@),
    {
        SubscriberEmail::parse(self.sender_email.clone())
    }

    /// Relies on `Duration::from_millis`: the configured timeout as a
    /// duration.
    #[verifier::external_body]
    pub fn timeout(&self) -> std::time::Duration {
        std::time::Duration::from_millis(self.timeout_milliseconds)
    }
}

/// Which deployment environment the service runs in.
#[derive(Clone, Copy, PartialEq, Eq, Structural, Debug)]
pub enum Environment {
    Local,
    Production,
}

/// What lowercasing yields; named so that environment parsing can speak of
/// it.
pub uninterp spec fn lower_of(s: Seq<char>) -> Seq<char>;

/// Relies on `str::to_lowercase`: the result depends on the characters
/// alone.
#[verifier::external_body]
fn lowercase(s: &str) -> (r: String)
    ensures
        r@ == lower_of(s@),
{
    s.to_lowercase()
}

impl Environment {
    pub fn as_str(&self) -> (r: &'static str)
        ensures
            *self is Local ==> r@ == "local"@,
            *self is Production ==> r@ == "production"@,
    {
        match self {
            Environment::Local => "local",
            Environment::Production => "production",
        }
    }

    /// Reads an environment name case-insensitively; anything but the two
    /// known names is handed back rejected.
    pub fn parse(s: &str) -> (r: Result<Environment, String>)
        ensures
            lower_of(s@) == "local"@ ==> r == Ok::<Environment, String>(Environment::Local),
            lower_of(s@) == "production"@ ==> r == Ok::<Environment, String>(
                Environment::Production,
            ),
            lower_of(s@) != "local"@ && lower_of(s@) != "production"@ ==> (r matches Err(e) && e@
                == s@),
    {
        proof {
            reveal_strlit("local");
            reveal_strlit("production");
            assert("local"@.len() == 5);
            assert("production"@.len() == 10);
            assert("local"@ != "production"@);
        }
        let low = lowercase(s);
        if str_chars_eq(low.as_str(), "local") {
            Ok(Environment::Local)
        } else if str_chars_eq(low.as_str(), "production") {
            Ok(Environment::Production)
        } else {
            Err(s.to_owned())
        }
    }
}

} // verus!

//! Resolving the credentials of a project from its configuration sources.
//!
//! Three sources are consulted in a fixed order: the dotenv file of the
//! project, the credentials stored with the project, and the `database` record
//! of the project's structured settings file. The first that yields
//! credentials wins.

use vstd::prelude::*;
use vstd::string::*;
use crate::error::{ErrorView, InspectorError};
use crate::json::{json_nested_text, member_text};
use crate::models::db_types::{credentials_of, CredentialsView, DbCredentials};
use crate::text::{find_char_from, first_index, same_text, slice_text, text_of, trim, trimmed};

verus! {

/// `v` without one layer of surrounding double quotes.
pub open spec fn unquoted(v: Seq<char>) -> Seq<char> {
    if v.len() >= 2 && v[0] == '"' && v.last() == '"' {
        v.subrange(1, v.len() - 1)
    } else {
        v
    }
}

/// The key and value that one line of a dotenv file defines.
///
/// A blank line, a line that starts with `#` and a line without `=` define
/// nothing. The key is the trimmed text before the first `=`, the value the
/// trimmed and unquoted text after it.
pub open spec fn line_entry(line: Seq<char>) -> Option<(Seq<char>, Seq<char>)> {
    let eq = first_index(line, '=');
    if trimmed(line).len() == 0 || (line.len() > 0 && line[0] == '#') || eq >= line.len() || eq
        < 0 {
        None
    } else {
        Some(
            (
                trimmed(line.subrange(0, eq)),
                unquoted(trimmed(line.subrange(eq + 1, line.len() as int))),
            ),
        )
    }
}

/// What one line says of `key`.
pub open spec fn line_value(line: Seq<char>, key: Seq<char>) -> Option<Seq<char>> {
    match line_entry(line) {
        Some((k, v)) => if k == key {
            Some(v)
        } else {
            None
        },
        None => None,
    }
}

/// The second value where there is one, else the first.
pub open spec fn later_wins(a: Option<Seq<char>>, b: Option<Seq<char>>) -> Option<Seq<char>> {
    if b is Some {
        b
    } else {
        a
    }
}

/// The value that a dotenv file gives to `key`: that of the last line that
/// defines it.
pub open spec fn env_lookup(content: Seq<char>, key: Seq<char>) -> Option<Seq<char>>
    decreases content.len(),
{
    let nl = first_index(content, '\n');
    let here = line_value(content.subrange(0, nl), key);
    if 0 <= nl < content.len() {
        later_wins(here, env_lookup(content.subrange(nl + 1, content.len() as int), key))
    } else {
        here
    }
}

/// Reads one line of a dotenv file.
pub fn parse_line<'a>(line: &'a str) -> (r: Option<(&'a str, &'a str)>)
    ensures
        match r {
            Some((k, v)) => line_entry(line@) == Some((k@, v@)),
            None => line_entry(line@) is None,
        },
{
    let n: usize = line.unicode_len();
    if trim(line).unicode_len() == 0 {
        return None;
    }
    if n > 0 && line.get_char(0) == '#' {
        return None;
    }
    let eq: usize = find_char_from(line, '=', 0);
    assert(line@.subrange(0, n as int) =~= line@);
    if eq == n {
        return None;
    }
    let key = trim(line.substring_char(0, eq));
    let val = trim(line.substring_char(eq + 1, n));
    let m: usize = val.unicode_len();
    if m >= 2 && val.get_char(0) == '"' && val.get_char(m - 1) == '"' {
        Some((key, val.substring_char(1, m - 1)))
    } else {
        Some((key, val))
    }
}

/// Looks `key` up in the text of a dotenv file.
pub fn env_value(content: &str, key: &str) -> (r: Option<String>)
    ensures
        text_of(r) == env_lookup(content@, key@),
{
    let n: usize = content.unicode_len();
    let mut found: Option<String> = None;
    let mut pos: usize = 0;
    let mut done = false;
    assert(content@.subrange(0, n as int) =~= content@);
    while !done
        invariant
            n == content@.len(),
            pos <= n,
            !done ==> env_lookup(content@, key@) == later_wins(
                text_of(found),
                env_lookup(content@.subrange(pos as int, n as int), key@),
            ),
            done ==> env_lookup(content@, key@) == text_of(found),
        decreases
                (if done {
                    0
                } else {
                    n - pos + 1
                }),
    {
        let nl: usize = find_char_from(content, '\n', pos);
        let line = content.substring_char(pos, nl);
        proof {
            let rest = content@.subrange(pos as int, n as int);
            assert(rest.subrange(0, nl - pos) =~= line@);
            if nl < n {
                assert(rest.subrange(nl - pos + 1, rest.len() as int) =~= content@.subrange(
                    nl + 1,
                    n as int,
                ));
            }
        }
        match parse_line(line) {
            Some((k, v)) => {
                if same_text(k, key) {
                    found = Some(String::from_str(v));
                }
            },
            None => {},
        }
        if nl < n {
            pos = nl + 1;
        } else {
            done = true;
        }
    }
    found
}

/// The credentials that a dotenv file defines.
///
/// With `DB_CONNECTION=mysql` the file must define host, port, database,
/// user name and password; with `DB_CONNECTION=sqlite` it must define the
/// database, which is then a path below the project root. Any other file
/// defines none.
pub open spec fn env_credentials(env: Seq<char>) -> Option<CredentialsView> {
    let connection = env_lookup(env, "DB_CONNECTION"@);
    let host = env_lookup(env, "DB_HOST"@);
    let port = env_lookup(env, "DB_PORT"@);
    let database = env_lookup(env, "DB_DATABASE"@);
    let username = env_lookup(env, "DB_USERNAME"@);
    let password = env_lookup(env, "DB_PASSWORD"@);
    if connection == Some("mysql"@) {
        if host is Some && port is Some && database is Some && username is Some
            && password is Some {
            Some(
                CredentialsView {
                    host,
                    port,
                    database: database->0,
                    username,
                    password,
                    connection: "mysql"@,
                },
            )
        } else {
            None
        }
    } else if connection == Some("sqlite"@) && database is Some {
        Some(
            CredentialsView {
                host: None,
                port: None,
                database: database->0,
                username: None,
                password: None,
                connection: "sqlite"@,
            },
        )
    } else {
        None
    }
}

/// Builds credentials from the text of a dotenv file.
pub fn credentials_from_env(env: &str) -> (r: Option<DbCredentials>)
    ensures
        credentials_of(r) == env_credentials(env@),
{
    let connection = match env_value(env, "DB_CONNECTION") {
        Some(c) => c,
        None => {
            return None;
        },
    };
    if same_text(connection.as_str(), "mysql") {
        let host = env_value(env, "DB_HOST");
        let port = env_value(env, "DB_PORT");
        let database = env_value(env, "DB_DATABASE");
        let username = env_value(env, "DB_USERNAME");
        let password = env_value(env, "DB_PASSWORD");
        if host.is_some() && port.is_some() && username.is_some() && password.is_some() {
            match database {
                Some(d) => Some(
                    DbCredentials {
                        host,
                        port,
                        database: d,
                        username,
                        password,
                        connection: String::from_str("mysql"),
                    },
                ),
                None => None,
            }
        } else {
            None
        }
    } else if same_text(connection.as_str(), "sqlite") {
        match env_value(env, "DB_DATABASE") {
            Some(d) => Some(
                DbCredentials {
                    host: None,
                    port: None,
                    database: d,
                    username: None,
                    password: None,
                    connection: String::from_str("sqlite"),
                },
            ),
            None => None,
        }
    } else {
        None
    }
}

/// The credentials that the members of a `database` record stand for: only a
/// record whose `connection` is `"mysql"` is accepted, and a missing database
/// name is empty.
pub open spec fn record_credentials(
    connection: Option<Seq<char>>,
    host: Option<Seq<char>>,
    port: Option<Seq<char>>,
    database: Option<Seq<char>>,
    username: Option<Seq<char>>,
    password: Option<Seq<char>>,
) -> Option<CredentialsView> {
    if connection == Some("mysql"@) {
        Some(
            CredentialsView {
                host,
                port,
                database: match database {
                    Some(d) => d,
                    None => Seq::<char>::empty(),
                },
                username,
                password,
                connection: "mysql"@,
            },
        )
    } else {
        None
    }
}

/// Builds credentials from the members of a `database` record.
pub fn credentials_from_record(
    connection: Option<String>,
    host: Option<String>,
    port: Option<String>,
    database: Option<String>,
    username: Option<String>,
    password: Option<String>,
) -> (r: Option<DbCredentials>)
    ensures
        credentials_of(r) == record_credentials(
            text_of(connection),
            text_of(host),
            text_of(port),
            text_of(database),
            text_of(username),
            text_of(password),
        ),
{
    match connection {
        Some(c) => {
            if same_text(c.as_str(), "mysql") {
                let database = match database {
                    Some(d) => d,
                    None => String::new(),
                };
                Some(DbCredentials { host, port, database, username, password, connection: c })
            } else {
                None
            }
        },
        None => None,
    }
}

/// The credentials in the `database` record of a structured settings file.
pub open spec fn settings_credentials(content: Seq<char>) -> Option<CredentialsView> {
    record_credentials(
        json_nested_text(content, "database"@, "connection"@),
        json_nested_text(content, "database"@, "host"@),
        json_nested_text(content, "database"@, "port"@),
        json_nested_text(content, "database"@, "database"@),
        json_nested_text(content, "database"@, "username"@),
        json_nested_text(content, "database"@, "password"@),
    )
}

/// Builds credentials from the text of a structured settings file.
pub fn credentials_from_settings(content: &str) -> (r: Option<DbCredentials>)
    ensures
        credentials_of(r) == settings_credentials(content@),
{
    let connection = member_text(content, "database", "connection");
    let host = member_text(content, "database", "host");
    let port = member_text(content, "database", "port");
    let database = member_text(content, "database", "database");
    let username = member_text(content, "database", "username");
    let password = member_text(content, "database", "password");
    credentials_from_record(connection, host, port, database, username, password)
}

/// The credentials that the three sources resolve to, the first that yields
/// any: the dotenv file, the stored credentials, the settings file.
pub open spec fn resolved(
    env: Option<Seq<char>>,
    stored: Option<CredentialsView>,
    settings: Option<Seq<char>>,
) -> Option<CredentialsView> {
    let from_env = match env {
        Some(e) => env_credentials(e),
        None => None,
    };
    let from_settings = match settings {
        Some(l) => settings_credentials(l),
        None => None,
    };
    if from_env is Some {
        from_env
    } else if stored is Some {
        stored
    } else {
        from_settings
    }
}

/// Resolves the credentials of a project.
///
/// `env` is the text of the project's dotenv file, `stored` the credentials
/// kept with the project, `settings` the text of its structured settings file;
/// each is `None` where the source is missing or unreadable.
pub fn resolve_credentials(
    env: Option<&str>,
    stored: Option<DbCredentials>,
    settings: Option<&str>,
) -> (r: Result<DbCredentials, InspectorError>)
    ensures
        match r {
            Ok(c) => resolved(slice_text(env), credentials_of(stored), slice_text(settings))
                == Some(c@),
            Err(e) => e@ == ErrorView::CredentialsNotFound && resolved(
                slice_text(env),
                credentials_of(stored),
                slice_text(settings),
            ) is None,
        },
{
    let from_env = match env {
        Some(e) => credentials_from_env(e),
        None => None,
    };
    if let Some(c) = from_env {
        return Ok(c);
    }
    if let Some(c) = stored {
        return Ok(c);
    }
    let from_settings = match settings {
        Some(l) => credentials_from_settings(l),
        None => None,
    };
    match from_settings {
        Some(c) => Ok(c),
        None => Err(InspectorError::CredentialsNotFound),
    }
}

/// The engine of the credentials that the three sources resolve to.
pub open spec fn resolved_connection_type(
    env: Option<Seq<char>>,
    stored: Option<CredentialsView>,
    settings: Option<Seq<char>>,
) -> Option<Seq<char>> {
    match resolved(env, stored, settings) {
        Some(c) => Some(c.connection),
        None => None,
    }
}

/// Resolves the engine of a project without describing a backend: the
/// connection of the credentials that `resolve_credentials` gives for the same
/// sources, and `EngineNotFound` where it gives none.
pub fn get_db_connection_type(
    env: Option<&str>,
    stored: Option<DbCredentials>,
    settings: Option<&str>,
) -> (r: Result<String, InspectorError>)
    ensures
        match r {
            Ok(c) => resolved_connection_type(
                slice_text(env),
                credentials_of(stored),
                slice_text(settings),
            ) == Some(c@),
            Err(e) => e@ == ErrorView::EngineNotFound && resolved_connection_type(
                slice_text(env),
                credentials_of(stored),
                slice_text(settings),
            ) is None,
        },
{
    match resolve_credentials(env, stored, settings) {
        Ok(c) => Ok(c.connection),
        Err(_) => Err(InspectorError::EngineNotFound),
    }
}

/// Credentials in the dotenv file take precedence over stored credentials and
/// over the settings file, whatever those hold.
pub proof fn lemma_env_takes_precedence(
    env: Seq<char>,
    stored: Option<CredentialsView>,
    settings: Option<Seq<char>>,
)
    requires
        env_credentials(env) is Some,
    ensures
        resolved(Some(env), stored, settings) == env_credentials(env),
{
}

/// Stored credentials take precedence over the settings file where the dotenv
/// file yields none.
pub proof fn lemma_stored_precedes_settings(
    env: Option<Seq<char>>,
    stored: CredentialsView,
    settings: Option<Seq<char>>,
)
    requires
        env is Some ==> env_credentials(env->0) is None,
    ensures
        resolved(env, Some(stored), settings) == Some(stored),
{
}

} // verus!

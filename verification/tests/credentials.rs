use workshop::credentials::{
    credentials_from_env, credentials_from_settings, credentials_from_record, env_value, parse_line,
    get_db_connection_type, resolve_credentials,
};
use workshop::error::InspectorError;
use workshop::models::db_types::DbCredentials;
use workshop::text::NumberError;

const MYSQL_ENV: &str = "APP_NAME=Shop\n# database\nDB_CONNECTION=mysql\nDB_HOST=127.0.0.1\nDB_PORT=3307\nDB_DATABASE=\"shop\"\nDB_USERNAME = root \nDB_PASSWORD=\n";

fn sqlite_stored() -> DbCredentials {
    DbCredentials {
        host: None,
        port: None,
        database: "db/app.sqlite".to_string(),
        username: None,
        password: None,
        connection: "sqlite".to_string(),
    }
}

#[test]
fn line_with_quotes_is_unquoted() {
    assert_eq!(parse_line("DB_DATABASE=\"shop\""), Some(("DB_DATABASE", "shop")));
}

#[test]
fn line_is_trimmed_around_key_and_value() {
    assert_eq!(parse_line("  KEY  =  some value \r"), Some(("KEY", "some value")));
}

#[test]
fn line_splits_at_first_equals() {
    assert_eq!(parse_line("URL=a=b"), Some(("URL", "a=b")));
}

#[test]
fn comment_blank_and_bare_lines_define_nothing() {
    assert_eq!(parse_line("# DB_HOST=x"), None);
    assert_eq!(parse_line("   "), None);
    assert_eq!(parse_line(""), None);
    assert_eq!(parse_line("DB_HOST"), None);
}

#[test]
fn indented_comment_is_an_entry() {
    assert_eq!(parse_line(" #A=1"), Some(("#A", "1")));
}

#[test]
fn single_quote_mark_value_is_kept() {
    assert_eq!(parse_line("A=\""), Some(("A", "\"")));
    assert_eq!(parse_line("A=\"\""), Some(("A", "")));
}

#[test]
fn only_one_layer_of_quotes_is_stripped() {
    assert_eq!(parse_line("A=\"\"x\"\""), Some(("A", "\"x\"")));
}

#[test]
fn env_value_finds_keys() {
    assert_eq!(env_value(MYSQL_ENV, "DB_HOST"), Some("127.0.0.1".to_string()));
    assert_eq!(env_value(MYSQL_ENV, "DB_DATABASE"), Some("shop".to_string()));
    assert_eq!(env_value(MYSQL_ENV, "DB_USERNAME"), Some("root".to_string()));
    assert_eq!(env_value(MYSQL_ENV, "DB_PASSWORD"), Some(String::new()));
    assert_eq!(env_value(MYSQL_ENV, "DB_MISSING"), None);
    assert_eq!(env_value("", "A"), None);
}

#[test]
fn env_value_last_definition_wins() {
    assert_eq!(env_value("A=1\nB=2\nA=3", "A"), Some("3".to_string()));
    assert_eq!(env_value("A=1\r\nA=2\r\n", "A"), Some("2".to_string()));
}

#[test]
fn env_mysql_credentials() {
    let c = credentials_from_env(MYSQL_ENV).unwrap();
    assert_eq!(c.connection, "mysql");
    assert_eq!(c.host.as_deref(), Some("127.0.0.1"));
    assert_eq!(c.port.as_deref(), Some("3307"));
    assert_eq!(c.database, "shop");
    assert_eq!(c.username.as_deref(), Some("root"));
    assert_eq!(c.password.as_deref(), Some(""));
}

#[test]
fn env_mysql_needs_all_five_parts() {
    let env = "DB_CONNECTION=mysql\nDB_HOST=h\nDB_PORT=1\nDB_DATABASE=d\nDB_USERNAME=u\n";
    assert!(credentials_from_env(env).is_none());
}

#[test]
fn env_sqlite_credentials() {
    let c = credentials_from_env("DB_CONNECTION=sqlite\nDB_DATABASE=database/database.sqlite\n")
        .unwrap();
    assert_eq!(c.connection, "sqlite");
    assert_eq!(c.database, "database/database.sqlite");
    assert!(c.host.is_none() && c.port.is_none() && c.username.is_none() && c.password.is_none());
    assert!(credentials_from_env("DB_CONNECTION=sqlite\n").is_none());
}

#[test]
fn env_other_engine_gives_none() {
    assert!(credentials_from_env("DB_CONNECTION=pgsql\nDB_DATABASE=x\n").is_none());
    assert!(credentials_from_env("DB_DATABASE=x\n").is_none());
}

#[test]
fn record_accepts_only_mysql() {
    let s = |t: &str| Some(t.to_string());
    let c = credentials_from_record(s("mysql"), s("h"), None, None, s("u"), None).unwrap();
    assert_eq!(c.connection, "mysql");
    assert_eq!(c.host.as_deref(), Some("h"));
    assert_eq!(c.port, None);
    assert_eq!(c.database, "");
    assert_eq!(c.username.as_deref(), Some("u"));
    assert_eq!(c.password, None);
    assert!(credentials_from_record(s("sqlite"), None, None, s("d"), None, None).is_none());
    assert!(credentials_from_record(None, None, None, s("d"), None, None).is_none());
}

#[test]
fn settings_file_is_read_by_member_names() {
    let json = "{\"project_type\":\"Laravel\",\"database\":{\"connection\":\"mysql\",\"host\":\"db.local\",\"port\":\"3306\",\"database\":\"settings\",\"username\":\"admin\",\"password\":7}}";
    let c = credentials_from_settings(json).unwrap();
    assert_eq!(c.connection, "mysql");
    assert_eq!(c.host.as_deref(), Some("db.local"));
    assert_eq!(c.port.as_deref(), Some("3306"));
    assert_eq!(c.database, "settings");
    assert_eq!(c.username.as_deref(), Some("admin"));
    assert_eq!(c.password, None);
}

#[test]
fn settings_file_rejects_other_shapes() {
    assert!(credentials_from_settings("{\"database\":{\"connection\":\"sqlite\",\"database\":\"x\"}}").is_none());
    assert!(credentials_from_settings("{\"database\":\"mysql\"}").is_none());
    assert!(credentials_from_settings("{\"connection\":\"mysql\"}").is_none());
    assert!(credentials_from_settings("not json").is_none());
    assert!(credentials_from_settings("mysql").is_none());
}

#[test]
fn env_takes_precedence_over_stored_blob() {
    let c = resolve_credentials(Some(MYSQL_ENV), Some(sqlite_stored()), None).unwrap();
    assert_eq!(c.connection, "mysql");
    assert_eq!(c.database, "shop");
}

#[test]
fn stored_blob_is_second() {
    let settings = "{\"database\":{\"connection\":\"mysql\",\"database\":\"settings\"}}";
    let c = resolve_credentials(Some("APP=1\n"), Some(sqlite_stored()), Some(settings)).unwrap();
    assert_eq!(c.connection, "sqlite");
    assert_eq!(c.database, "db/app.sqlite");
    let c = resolve_credentials(None, Some(sqlite_stored()), Some(settings)).unwrap();
    assert_eq!(c.connection, "sqlite");
}

#[test]
fn settings_file_is_last() {
    let settings = "{\"database\":{\"connection\":\"mysql\",\"database\":\"settings\"}}";
    let c = resolve_credentials(Some("DB_CONNECTION=mysql\n"), None, Some(settings)).unwrap();
    assert_eq!(c.database, "settings");
    assert_eq!(c.host, None);
}

#[test]
fn no_source_gives_credentials_not_found() {
    assert_eq!(resolve_credentials(None, None, None).unwrap_err(), InspectorError::CredentialsNotFound);
    assert_eq!(
        resolve_credentials(Some("A=1"), None, Some("{}")).unwrap_err(),
        InspectorError::CredentialsNotFound
    );
}

#[test]
fn connection_type_follows_the_cascade() {
    assert_eq!(get_db_connection_type(Some(MYSQL_ENV), Some(sqlite_stored()), None).unwrap(), "mysql");
    assert_eq!(
        get_db_connection_type(Some("DB_CONNECTION=sqlite\nDB_DATABASE=x"), None, None).unwrap(),
        "sqlite"
    );
    assert_eq!(get_db_connection_type(Some("DB_CONNECTION=pgsql"), Some(sqlite_stored()), None).unwrap(), "sqlite");
    assert_eq!(get_db_connection_type(Some("DB_CONNECTION=mysql"), Some(sqlite_stored()), None).unwrap(), "sqlite");
    assert_eq!(get_db_connection_type(Some("A=1"), Some(sqlite_stored()), None).unwrap(), "sqlite");
    let settings = "{\"database\":{\"connection\":\"mysql\"}}";
    assert_eq!(get_db_connection_type(None, None, Some(settings)).unwrap(), "mysql");
}

#[test]
fn connection_type_of_no_credentials_is_not_found() {
    let other = "{\"database\":{\"connection\":\"oracle\"}}";
    assert_eq!(
        get_db_connection_type(None, None, Some(other)).unwrap_err(),
        InspectorError::EngineNotFound
    );
    assert_eq!(
        get_db_connection_type(Some("DB_CONNECTION=pgsql"), None, Some("{\"database\":{}}")).unwrap_err(),
        InspectorError::EngineNotFound
    );
    assert_eq!(get_db_connection_type(None, None, None).unwrap_err(), InspectorError::EngineNotFound);
    assert_eq!(
        get_db_connection_type(None, None, None).unwrap_err().message(),
        "Database configuration not found"
    );
}

#[test]
fn error_messages_are_text() {
    assert_eq!(
        InspectorError::ProjectNotFound("abc".to_string()).message(),
        "Project with ID 'abc' not found in database"
    );
    assert_eq!(
        InspectorError::CredentialsNotFound.message(),
        "Database configuration not found. Please ensure either a .env file with DB credentials exists or configure the database settings."
    );
    assert_eq!(
        InspectorError::ConnectionFailed { path: None, detail: "refused".to_string() }.message(),
        "Failed to connect to MySQL database: refused"
    );
    assert_eq!(
        InspectorError::ConnectionFailed {
            path: Some("/srv/app/db.sqlite".to_string()),
            detail: "unable to open database file".to_string()
        }
        .message(),
        "Failed to open SQLite database at /srv/app/db.sqlite: unable to open database file"
    );
    assert_eq!(InspectorError::InvalidIdentifier.message(), "Invalid identifier");
    assert_eq!(InspectorError::QueryFailed("no such table: t".to_string()).message(), "no such table: t");
    assert_eq!(
        InspectorError::SerializationError("key must be a string".to_string()).message(),
        "Failed to serialize credentials: key must be a string"
    );
    assert_eq!(
        InspectorError::UnsupportedConnection("postgres".to_string()).message(),
        "Unsupported database connection type: postgres"
    );
    assert_eq!(
        InspectorError::InvalidPort(NumberError::Empty).message(),
        "Invalid port number: cannot parse integer from empty string"
    );
    assert_eq!(
        InspectorError::InvalidPort(NumberError::InvalidDigit).message(),
        "Invalid port number: invalid digit found in string"
    );
    assert_eq!(
        InspectorError::InvalidPort(NumberError::TooLarge).message(),
        "Invalid port number: number too large to fit in target type"
    );
    assert_eq!(InspectorError::MalformedDocument("EOF while parsing".to_string()).message(), "EOF while parsing");
    assert_eq!(InspectorError::EngineNotFound.message(), "Database configuration not found");
    assert_eq!(InspectorError::UnsupportedEditor("vim".to_string()).message(), "Unsupported editor: vim");
}

use workshop::db_factory::{connect_database, get_db_backend, DbBackend, MySqlBackend, SqliteBackend};
use workshop::error::InspectorError;
use workshop::identifier::is_valid_identifier;
use workshop::models::db_types::DbCredentials;
use workshop::query::{
    columns_are_distinct, count_statement, delete_statement, filter_has_limit, page_select_text,
    quote_identifier, update_statement, upper_names_limit, Engine,
};
use workshop::text::{
    contains, ends_with, i64_text, padded_text, parse_u16, same_text, starts_with, trim, u64_text,
    NumberError,
};

fn sqlite() -> DbBackend {
    DbBackend::Sqlite(SqliteBackend::new("/srv/app", "db.sqlite"))
}

fn mysql() -> DbBackend {
    DbBackend::MySql(MySqlBackend {
        host: "h".to_string(),
        port: 3306,
        database: "d".to_string(),
        username: "u".to_string(),
        password: "p".to_string(),
    })
}

#[test]
fn identifiers_allow_letters_digits_underscore() {
    assert!(is_valid_identifier("users"));
    assert!(is_valid_identifier("_t1_X"));
    assert!(is_valid_identifier("9"));
}

#[test]
fn identifiers_reject_everything_else() {
    assert!(!is_valid_identifier(""));
    assert!(!is_valid_identifier("a;b"));
    assert!(!is_valid_identifier("a-b"));
    assert!(!is_valid_identifier("a b"));
    assert!(!is_valid_identifier("a`b"));
    assert!(!is_valid_identifier("a\"b"));
    assert!(!is_valid_identifier("naïve"));
    assert!(!is_valid_identifier("users; DROP TABLE users"));
}

#[test]
fn text_primitives() {
    assert_eq!(trim("  a b \t\r\n"), "a b");
    assert_eq!(trim("\u{a0}\u{3000}x\u{2003}"), "x");
    assert_eq!(trim("   "), "");
    assert!(contains("abcLIMITdef", "LIMIT"));
    assert!(!contains("abcLIMI", "LIMIT"));
    assert!(contains("abc", ""));
    assert!(starts_with("APP_LOCALE=en", "APP_LOCALE="));
    assert!(!starts_with("APP", "APP_LOCALE="));
    assert!(ends_with("laravel.log", ".log"));
    assert!(!ends_with("log", ".log"));
    assert!(same_text("héllo", "héllo"));
    assert!(!same_text("hello", "hellp"));
    assert!(!same_text("hello", "hell"));
}

#[test]
fn decimal_text_is_exact() {
    assert_eq!(u64_text(0), "0");
    assert_eq!(u64_text(9), "9");
    assert_eq!(u64_text(10), "10");
    assert_eq!(u64_text(u64::MAX), "18446744073709551615");
    assert_eq!(i64_text(-1), "-1");
    assert_eq!(i64_text(i64::MIN), "-9223372036854775808");
    assert_eq!(i64_text(i64::MAX), "9223372036854775807");
    assert_eq!(padded_text(7, 2), "07");
    assert_eq!(padded_text(123, 2), "123");
    assert_eq!(padded_text(0, 4), "0000");
    assert_eq!(padded_text(5, 0), "5");
}

#[test]
fn port_numbers() {
    assert_eq!(parse_u16("3306"), Ok(3306));
    assert_eq!(parse_u16("+80"), Ok(80));
    assert_eq!(parse_u16("0003306"), Ok(3306));
    assert_eq!(parse_u16("65535"), Ok(65535));
    assert_eq!(parse_u16("65536"), Err(NumberError::TooLarge));
    assert_eq!(parse_u16("99999999999999999999"), Err(NumberError::TooLarge));
    assert_eq!(parse_u16("99999a"), Err(NumberError::TooLarge));
    assert_eq!(parse_u16("9999a9"), Err(NumberError::InvalidDigit));
    assert_eq!(parse_u16(""), Err(NumberError::Empty));
    assert_eq!(parse_u16("+"), Err(NumberError::InvalidDigit));
    assert_eq!(parse_u16("-1"), Err(NumberError::InvalidDigit));
    assert_eq!(parse_u16("12a"), Err(NumberError::InvalidDigit));
    assert_eq!(parse_u16(" 12"), Err(NumberError::InvalidDigit));
    assert_eq!(parse_u16("++1"), Err(NumberError::InvalidDigit));
}

#[test]
fn quoting_doubles_the_quote_character() {
    assert_eq!(quote_identifier(Engine::ClientServer, "na`me"), "`na``me`");
    assert_eq!(quote_identifier(Engine::Embedded, "na\"me"), "\"na\"\"me\"");
    assert_eq!(quote_identifier(Engine::Embedded, "na`me"), "\"na`me\"");
    assert_eq!(quote_identifier(Engine::ClientServer, ""), "``");
}

#[test]
fn page_select_without_filter() {
    let plan = sqlite().get_table_data("users", 3, 10, None, None, None);
    assert_eq!(plan.statement.sql, "SELECT * FROM users LIMIT 11 OFFSET 20");
    assert!(plan.statement.params.is_empty());
    assert!(plan.probes_next);
    let plan = sqlite().get_table_data("users", 1, 10, Some("   "), None, None);
    assert_eq!(plan.statement.sql, "SELECT * FROM users LIMIT 11 OFFSET 0");
}

#[test]
fn page_select_with_filter_and_sort() {
    let plan = mysql().get_table_data("users", 2, 25, Some("status = 'active'"), Some("created`at"), Some("DESC"));
    assert_eq!(
        plan.statement.sql,
        "SELECT * FROM users WHERE status = 'active' ORDER BY `created``at` DESC LIMIT 26 OFFSET 25"
    );
    let plan = sqlite().get_table_data("users", 1, 5, None, Some("name"), Some("desc"));
    assert_eq!(plan.statement.sql, "SELECT * FROM users ORDER BY \"name\" ASC LIMIT 6 OFFSET 0");
    let plan = sqlite().get_table_data("users", 1, 5, None, Some("name"), None);
    assert_eq!(plan.statement.sql, "SELECT * FROM users ORDER BY \"name\" ASC LIMIT 6 OFFSET 0");
    let plan = sqlite().get_table_data("users", 1, 5, None, None, Some("DESC"));
    assert_eq!(plan.statement.sql, "SELECT * FROM users LIMIT 6 OFFSET 0");
}

#[test]
fn page_select_bounds_do_not_overflow() {
    let plan = sqlite().get_table_data("t", u32::MAX, u32::MAX, None, None, None);
    assert_eq!(plan.statement.sql, "SELECT * FROM t LIMIT 4294967296 OFFSET 18446744060824649730");
}

#[test]
fn filter_with_limit_is_used_verbatim() {
    let plan = sqlite().get_table_data("users", 4, 10, Some("id > 5 LIMIT 3"), Some("id"), Some("DESC"));
    assert_eq!(plan.statement.sql, "SELECT * FROM users WHERE id > 5 LIMIT 3");
    assert!(!plan.probes_next);
}

#[test]
fn limit_is_found_in_any_case() {
    assert!(filter_has_limit(Some("id > 5 limit 3")));
    assert!(filter_has_limit(Some("id > 5 LiMiT 3")));
    assert!(!filter_has_limit(Some("id > 5")));
    assert!(!filter_has_limit(Some("  ")));
    assert!(!filter_has_limit(None));
    assert!(upper_names_limit("X LIMIT 1"));
    assert!(!upper_names_limit("x limit 1"));
    let plan = mysql().get_table_data("users", 1, 10, Some("id > 5 limit 3"), None, None);
    assert_eq!(plan.statement.sql, "SELECT * FROM users WHERE id > 5 limit 3");
}

#[test]
fn explicit_page_text_follows_the_flag() {
    let sql = page_select_text(Engine::Embedded, "t", 2, 3, Some("a = 1"), true, Some("a"), None);
    assert_eq!(sql, "SELECT * FROM t WHERE a = 1");
    let sql = page_select_text(Engine::Embedded, "t", 2, 3, Some("a = 1"), false, Some("a"), None);
    assert_eq!(sql, "SELECT * FROM t WHERE a = 1 ORDER BY \"a\" ASC LIMIT 4 OFFSET 3");
}

#[test]
fn count_keeps_the_filter_verbatim() {
    assert_eq!(count_statement("users", None).sql, "SELECT COUNT(*) FROM users");
    assert_eq!(count_statement("users", Some("")).sql, "SELECT COUNT(*) FROM users");
    assert_eq!(
        count_statement("users", Some("id > 5 LIMIT 3")).sql,
        "SELECT COUNT(*) FROM users WHERE id > 5 LIMIT 3"
    );
    assert_eq!(
        sqlite().get_total_rows("users", Some("age >= 18")).sql,
        "SELECT COUNT(*) FROM users WHERE age >= 18"
    );
}

#[test]
fn tables_statements() {
    assert_eq!(mysql().get_tables().sql, "SHOW TABLES");
    assert_eq!(
        sqlite().get_tables().sql,
        "SELECT name FROM sqlite_master WHERE type='table' AND name NOT LIKE 'sqlite_%'"
    );
}

#[test]
fn raw_query_is_passed_through() {
    let st = mysql().execute_query("SELECT 1; -- x");
    assert_eq!(st.sql, "SELECT 1; -- x");
    assert!(st.params.is_empty());
}

#[test]
fn delete_statement_binds_the_key() {
    let st = sqlite().delete_row("orders", "id", "42").unwrap();
    assert_eq!(st.sql, "DELETE FROM \"orders\" WHERE \"id\" = ?1");
    assert_eq!(st.params, vec![Some("42".to_string())]);
    assert!(st.names.is_empty());
    let st = mysql().delete_row("orders", "id", "42").unwrap();
    assert_eq!(st.sql, "DELETE FROM `orders` WHERE `id` = :value");
    assert_eq!(st.params, vec![Some("42".to_string())]);
    assert_eq!(st.names, vec!["value".to_string()]);
}

#[test]
fn delete_rejects_unsafe_names() {
    for bad in ["a;b", "a-b", "a b", "a`b", ""] {
        assert_eq!(delete_statement(Engine::Embedded, bad, "id", "1").unwrap_err(), InspectorError::InvalidIdentifier);
        assert_eq!(delete_statement(Engine::ClientServer, "t", bad, "1").unwrap_err(), InspectorError::InvalidIdentifier);
    }
    assert!(delete_statement(Engine::Embedded, "t", "id", "1; DROP TABLE t").is_ok());
}

#[test]
fn update_statement_sets_in_order_and_skips_the_key() {
    let changes = vec![
        ("name".to_string(), Some("x".to_string())),
        ("id".to_string(), Some("9".to_string())),
        ("note".to_string(), None),
    ];
    let st = mysql().update_row("users", "id", "7", &changes).unwrap().unwrap();
    assert_eq!(st.sql, "UPDATE `users` SET `name` = ?, `note` = ? WHERE `id` = ?");
    assert_eq!(st.params, vec![Some("x".to_string()), None, Some("7".to_string())]);
    assert!(st.names.is_empty());
    let st = sqlite().update_row("users", "id", "7", &changes).unwrap().unwrap();
    assert_eq!(st.sql, "UPDATE \"users\" SET \"name\" = ?, \"note\" = ? WHERE \"id\" = ?");
}

#[test]
fn update_with_key_first_has_no_leading_comma() {
    let changes = vec![("id".to_string(), None), ("a".to_string(), Some("1".to_string()))];
    let st = update_statement(Engine::Embedded, "t", "id", "3", &changes).unwrap().unwrap();
    assert_eq!(st.sql, "UPDATE \"t\" SET \"a\" = ? WHERE \"id\" = ?");
    assert_eq!(st.params, vec![Some("1".to_string()), Some("3".to_string())]);
}

#[test]
fn update_without_effective_change_is_a_no_op() {
    assert!(update_statement(Engine::Embedded, "t", "id", "3", &vec![]).unwrap().is_none());
    let only_key = vec![("id".to_string(), Some("4".to_string()))];
    assert!(update_statement(Engine::ClientServer, "t", "id", "3", &only_key).unwrap().is_none());
}

#[test]
fn update_rejects_unsafe_names() {
    let good = vec![("a".to_string(), None)];
    let bad = vec![("a".to_string(), None), ("b-c".to_string(), None)];
    assert_eq!(update_statement(Engine::Embedded, "t;", "id", "1", &good).unwrap_err(), InspectorError::InvalidIdentifier);
    assert_eq!(update_statement(Engine::Embedded, "t", "i d", "1", &good).unwrap_err(), InspectorError::InvalidIdentifier);
    assert_eq!(update_statement(Engine::Embedded, "t", "id", "1", &bad).unwrap_err(), InspectorError::InvalidIdentifier);
    assert_eq!(update_statement(Engine::Embedded, "", "id", "1", &vec![]).unwrap_err(), InspectorError::InvalidIdentifier);
}

fn creds(connection: &str, port: Option<&str>) -> DbCredentials {
    DbCredentials {
        host: Some("db".to_string()),
        port: port.map(|p| p.to_string()),
        database: "shop".to_string(),
        username: None,
        password: Some("pw".to_string()),
        connection: connection.to_string(),
    }
}

#[test]
fn backend_for_mysql() {
    match get_db_backend(&creds("mysql", Some("3307")), "/srv/app").unwrap() {
        DbBackend::MySql(b) => {
            assert_eq!(b.host, "db");
            assert_eq!(b.port, 3307);
            assert_eq!(b.database, "shop");
            assert_eq!(b.username, "");
            assert_eq!(b.password, "pw");
        }
        DbBackend::Sqlite(_) => panic!("wrong engine"),
    }
    let b = MySqlBackend::new(&creds("mysql", None)).unwrap();
    assert_eq!(b.port, 3306);
}

#[test]
fn backend_for_mysql_rejects_bad_port() {
    let e = get_db_backend(&creds("mysql", Some("http")), "/srv/app").unwrap_err();
    assert_eq!(e, InspectorError::InvalidPort(NumberError::InvalidDigit));
    assert_eq!(e.message(), "Invalid port number: invalid digit found in string");
    let e = MySqlBackend::new(&creds("mysql", Some("70000"))).unwrap_err();
    assert_eq!(e, InspectorError::InvalidPort(NumberError::TooLarge));
    assert_eq!(e.message(), "Invalid port number: number too large to fit in target type");
    let e = MySqlBackend::new(&creds("mysql", Some(""))).unwrap_err();
    assert_eq!(e, InspectorError::InvalidPort(NumberError::Empty));
    assert_eq!(e.message(), "Invalid port number: cannot parse integer from empty string");
}

#[test]
fn backend_for_sqlite_and_unknown() {
    let b = get_db_backend(&creds("sqlite", Some("junk")), "/srv/app").unwrap();
    assert_eq!(b.engine(), Engine::Embedded);
    match b {
        DbBackend::Sqlite(s) => {
            assert_eq!(s.root, "/srv/app");
            assert_eq!(s.database, "shop");
        }
        DbBackend::MySql(_) => panic!("wrong engine"),
    }
    assert_eq!(
        get_db_backend(&creds("pgsql", None), "/srv/app").unwrap_err(),
        InspectorError::UnsupportedConnection("pgsql".to_string())
    );
    assert_eq!(
        get_db_backend(&creds("MySQL", None), "/srv/app").unwrap_err(),
        InspectorError::UnsupportedConnection("MySQL".to_string())
    );
}

#[test]
fn unsupported_connection_is_named_in_the_message() {
    let postgres = DbCredentials {
        host: None,
        port: None,
        database: "x".to_string(),
        username: None,
        password: None,
        connection: "postgres".to_string(),
    };
    let e = get_db_backend(&postgres, "/tmp/p").unwrap_err();
    assert_eq!(e.message(), "Unsupported database connection type: postgres");
    let e = connect_database(None, Some(postgres), None, "/tmp/p").unwrap_err();
    assert_eq!(e.message(), "Unsupported database connection type: postgres");
    let e = get_db_backend(&creds("", None), "/tmp/p").unwrap_err();
    assert_eq!(e.message(), "Unsupported database connection type: ");
}

#[test]
fn connect_database_without_sources_is_not_found() {
    assert_eq!(connect_database(None, None, None, "/tmp/p").unwrap_err(), InspectorError::CredentialsNotFound);
    let b = connect_database(Some("DB_CONNECTION=sqlite\nDB_DATABASE=db.sqlite"), None, None, "/tmp/p").unwrap();
    assert_eq!(b.engine(), Engine::Embedded);
}

#[test]
fn changes_are_a_mapping() {
    let once = vec![("a".to_string(), None), ("b".to_string(), None)];
    let twice = vec![("a".to_string(), None), ("b".to_string(), None), ("a".to_string(), Some("1".to_string()))];
    assert!(columns_are_distinct(&once));
    assert!(columns_are_distinct(&vec![]));
    assert!(!columns_are_distinct(&twice));
}

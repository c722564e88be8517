use workshop::commands::lang_commands::{
    get_default_locale, is_locale_lang_extension, is_root_lang_extension, is_safe_relative_path,
    locale_of_env, locale_of_line, strip_char,
};
use workshop::commands::log_commands::{is_log_file_name, is_plain_file_name};
use workshop::commands::lang_commands::order_locales;
use workshop::commands::log_commands::{list_log_files, pick_log_files};
use workshop::sorting::{precedes, sort_names, NameOrder};
use workshop::commands::project_commands::{
    config_answer_from, editor_arguments, editor_command, get_project_config, get_project_type,
    laravel_command, project_type_answer, project_type_from, ConfigAnswer,
};
use workshop::error::InspectorError;
use workshop::text::text_precedes;
use workshop::models::project::{Project, ProjectStatus};

#[test]
fn status_labels_round_trip() {
    for status in [
        ProjectStatus::InProgress,
        ProjectStatus::Completed,
        ProjectStatus::InitialStage,
        ProjectStatus::OnHold,
        ProjectStatus::Abandoned,
    ] {
        assert_eq!(ProjectStatus::from_label(&status.label()), status);
    }
    assert_eq!(ProjectStatus::OnHold.label(), "OnHold");
    assert_eq!(ProjectStatus::InitialStage.label(), "InitialStage");
}

#[test]
fn unknown_status_label_is_in_progress() {
    assert_eq!(ProjectStatus::from_label("Paused"), ProjectStatus::InProgress);
    assert_eq!(ProjectStatus::from_label(""), ProjectStatus::InProgress);
    assert_eq!(ProjectStatus::from_label("completed"), ProjectStatus::InProgress);
}

#[test]
fn new_project_is_stamped_once() {
    let p = Project::with_identity(
        "Shop".to_string(),
        "A shop".to_string(),
        "/srv/shop".to_string(),
        ProjectStatus::InitialStage,
        "id-1".to_string(),
        "2024-01-01T00:00:00+00:00".to_string(),
    );
    assert_eq!(p.id, "id-1");
    assert_eq!(p.name, "Shop");
    assert_eq!(p.description, "A shop");
    assert_eq!(p.location, "/srv/shop");
    assert_eq!(p.status, ProjectStatus::InitialStage);
    assert_eq!(p.created_at, "2024-01-01T00:00:00+00:00");
    assert_eq!(p.updated_at, p.created_at);
    assert_eq!(p.db_config, None);
}

#[test]
fn project_update_takes_given_parts() {
    let mut p = Project::with_identity(
        "Shop".to_string(),
        "A shop".to_string(),
        "/srv/shop".to_string(),
        ProjectStatus::InitialStage,
        "id-1".to_string(),
        "t0".to_string(),
    );
    p.db_config = Some("{}".to_string());
    p.update_at(Some("Store".to_string()), None, None, Some(ProjectStatus::Completed), "t1".to_string());
    assert_eq!(p.name, "Store");
    assert_eq!(p.description, "A shop");
    assert_eq!(p.location, "/srv/shop");
    assert_eq!(p.status, ProjectStatus::Completed);
    assert_eq!(p.created_at, "t0");
    assert_eq!(p.updated_at, "t1");
    assert_eq!(p.id, "id-1");
    assert_eq!(p.db_config.as_deref(), Some("{}"));
}

#[test]
fn editors_by_display_name_and_program() {
    assert_eq!(editor_command("VSCode"), Ok("code"));
    assert_eq!(editor_command("code"), Ok("code"));
    assert_eq!(editor_command("Sublime Text"), Ok("subl"));
    assert_eq!(editor_command("PHPStorm"), Ok("phpstorm"));
    assert_eq!(editor_command("windsurf"), Ok("windsurf"));
    assert_eq!(editor_command("Zed"), Ok("zed"));
    assert_eq!(editor_command("vim"), Err(InspectorError::UnsupportedEditor("vim".to_string())));
    assert_eq!(editor_command("vscode").unwrap_err().message(), "Unsupported editor: vscode");
}

#[test]
fn editor_arguments_by_program() {
    assert_eq!(editor_arguments("code", "/p/a.php", Some(12)), vec!["-g", "/p/a.php:12"]);
    assert_eq!(editor_arguments("zed", "/p/a.php", Some(0)), vec!["-g", "/p/a.php:0"]);
    assert_eq!(editor_arguments("subl", "/p/a.php", Some(7)), vec!["/p/a.php:7"]);
    assert_eq!(editor_arguments("phpstorm", "/p/a.php", Some(4294967295)), vec!["--line", "4294967295", "/p/a.php"]);
    assert_eq!(editor_arguments("phpstorm", "/p", None), vec!["/p"]);
    assert_eq!(editor_arguments("other", "/p", Some(3)), vec!["/p:3"]);
}

#[test]
fn log_file_names() {
    assert!(is_log_file_name("laravel.log"));
    assert!(is_log_file_name(".log"));
    assert!(!is_log_file_name("laravel.log.gz"));
    assert!(!is_log_file_name("log"));
    assert!(is_plain_file_name("laravel-2024-01-01.log"));
    assert!(!is_plain_file_name("../.env"));
    assert!(!is_plain_file_name("a/b.log"));
    assert!(!is_plain_file_name("a\\b.log"));
    assert!(!is_plain_file_name("a..log"));
}

#[test]
fn lang_paths_and_extensions() {
    assert!(is_safe_relative_path("lang/en/auth.php"));
    assert!(!is_safe_relative_path("lang/../.env"));
    assert!(is_root_lang_extension("json"));
    assert!(!is_root_lang_extension("php"));
    assert!(is_locale_lang_extension("php"));
    assert!(is_locale_lang_extension("json"));
    assert!(!is_locale_lang_extension("JSON"));
    assert!(!is_locale_lang_extension(""));
}

#[test]
fn strip_char_cuts_both_ends() {
    assert_eq!(strip_char("\"\"a\"b\"", '"'), "a\"b");
    assert_eq!(strip_char("\"\"", '"'), "");
    assert_eq!(strip_char("abc", '"'), "abc");
}

#[test]
fn locale_lines() {
    assert_eq!(locale_of_line("  APP_LOCALE=\"de\"  "), Some("de"));
    assert_eq!(locale_of_line("APP_LOCALE='pt_BR'"), Some("pt_BR"));
    assert_eq!(locale_of_line("APP_LOCALE="), Some(""));
    assert_eq!(locale_of_line("APP_LOCALE =de"), None);
    assert_eq!(locale_of_line("#APP_LOCALE=de"), None);
    assert_eq!(locale_of_env("A=1\nAPP_LOCALE=fr\nAPP_LOCALE=de\n"), Some("fr"));
    assert_eq!(locale_of_env("A=1\nB=2"), None);
}

#[test]
fn default_locale_is_lower_case_or_en() {
    assert_eq!(get_default_locale(Some("APP_NAME=x\r\nAPP_LOCALE=\"PT_BR\"\r\n")), "pt_br");
    assert_eq!(get_default_locale(Some("APP_NAME=x\n")), "en");
    assert_eq!(get_default_locale(None), "en");
}

#[test]
fn fresh_project_has_random_id_and_one_time_stamp() {
    let a = Project::new("A".to_string(), "d".to_string(), "/a".to_string(), ProjectStatus::OnHold);
    let b = Project::new("B".to_string(), "d".to_string(), "/b".to_string(), ProjectStatus::OnHold);
    assert_eq!(a.id.chars().count(), 36);
    assert_ne!(a.id, b.id);
    assert_eq!(a.created_at, a.updated_at);
    assert!(a.created_at.contains('T'));
    assert_eq!(a.name, "A");
    assert_eq!(a.location, "/a");
    assert_eq!(a.status, ProjectStatus::OnHold);
    assert_eq!(a.db_config, None);
}

#[test]
fn project_update_stamps_with_the_clock() {
    let mut p = Project::with_identity(
        "Shop".to_string(),
        "A shop".to_string(),
        "/srv/shop".to_string(),
        ProjectStatus::InitialStage,
        "id-1".to_string(),
        "t0".to_string(),
    );
    p.update(None, Some("Better".to_string()), Some("/srv/x".to_string()), None);
    assert_eq!(p.name, "Shop");
    assert_eq!(p.description, "Better");
    assert_eq!(p.location, "/srv/x");
    assert_eq!(p.status, ProjectStatus::InitialStage);
    assert_eq!(p.created_at, "t0");
    assert_ne!(p.updated_at, "t0");
}

#[test]
fn texts_are_ordered_by_characters() {
    assert!(text_precedes("a", "b"));
    assert!(!text_precedes("b", "a"));
    assert!(!text_precedes("a", "a"));
    assert!(text_precedes("", "a"));
    assert!(!text_precedes("", ""));
    assert!(text_precedes("ab", "abc"));
    assert!(!text_precedes("abc", "ab"));
    assert!(text_precedes("Z", "a"));
    assert!(text_precedes("z", "é"));
}

fn names(list: &[&str]) -> Vec<String> {
    list.iter().map(|s| s.to_string()).collect()
}

#[test]
fn default_locale_is_listed_first() {
    let first = NameOrder::DefaultFirst("fr".to_string());
    assert!(precedes("fr", "de", &first));
    assert!(!precedes("de", "fr", &first));
    assert!(precedes("de", "en", &first));
    assert!(!precedes("en", "de", &first));
    assert!(!precedes("fr", "fr", &first));
    assert!(!precedes("de", "de", &first));
    assert_eq!(order_locales(&names(&["en", "fr", "de", "es"]), "fr"), names(&["fr", "de", "en", "es"]));
    assert_eq!(order_locales(&names(&["en", "de"]), "fr"), names(&["de", "en"]));
    assert_eq!(order_locales(&names(&[]), "en"), names(&[]));
}

#[test]
fn log_files_are_listed_downwards() {
    assert!(precedes("laravel-2024-02-01.log", "laravel-2024-01-31.log", &NameOrder::Downward));
    assert!(!precedes("laravel-2024-01-31.log", "laravel-2024-02-01.log", &NameOrder::Downward));
    assert!(!precedes("a.log", "a.log", &NameOrder::Downward));
    let dir = names(&["laravel-2024-01-31.log", "notes.txt", "laravel-2024-02-01.log", ".gitignore", "laravel.log"]);
    assert_eq!(pick_log_files(&dir), names(&["laravel-2024-01-31.log", "laravel-2024-02-01.log", "laravel.log"]));
    assert_eq!(list_log_files(&dir), names(&["laravel.log", "laravel-2024-02-01.log", "laravel-2024-01-31.log"]));
}

#[test]
fn sorting_keeps_every_name() {
    let given = names(&["b", "a", "b", "c", "a"]);
    assert_eq!(sort_names(&given, &NameOrder::Downward), names(&["c", "b", "b", "a", "a"]));
    assert_eq!(
        sort_names(&given, &NameOrder::DefaultFirst("b".to_string())),
        names(&["b", "b", "a", "a", "c"])
    );
}

#[test]
fn project_type_from_composer_file() {
    let laravel = "{\"require\":{\"php\":\"^8.2\",\"laravel/framework\":\"^11.0\"}}";
    assert_eq!(get_project_type(Some(laravel)).unwrap(), "Laravel");
    assert_eq!(get_project_type(Some("{\"require\":{\"php\":\"^8.2\"}}")).unwrap(), "Unknown");
    assert_eq!(get_project_type(Some("{\"require-dev\":{\"laravel/framework\":\"1\"}}")).unwrap(), "Unknown");
    assert_eq!(get_project_type(Some("{\"require\":\"laravel/framework\"}")).unwrap(), "Unknown");
    assert_eq!(get_project_type(Some("[]")).unwrap(), "Unknown");
    assert_eq!(get_project_type(None).unwrap(), "Unknown");
    assert_eq!(get_project_type(Some("{require")).unwrap_err(), malformed("{require"));
    assert_eq!(get_project_type(Some("")).unwrap_err(), malformed(""));
    assert_eq!(get_project_type(Some("")).unwrap_err().message(), "EOF while parsing a value at line 1 column 0");
}

fn malformed(text: &str) -> InspectorError {
    InspectorError::MalformedDocument(
        serde_json::from_str::<serde_json::Value>(text).unwrap_err().to_string(),
    )
}

#[test]
fn project_type_decision_table() {
    let against = || Some("no document".to_string());
    assert_eq!(project_type_from(false, None, true).unwrap(), "Unknown");
    assert_eq!(project_type_from(false, against(), true).unwrap(), "Unknown");
    assert_eq!(
        project_type_from(true, against(), true).unwrap_err(),
        InspectorError::MalformedDocument("no document".to_string())
    );
    assert_eq!(project_type_from(true, None, true).unwrap(), "Laravel");
    assert_eq!(project_type_from(true, None, false).unwrap(), "Unknown");
}

fn found(answer: ConfigAnswer) -> Option<String> {
    match answer {
        ConfigAnswer::Found(v) => Some(v),
        _ => None,
    }
}

#[test]
fn project_config_lookup() {
    let config = "{\"project_type\":\"Laravel\",\"theme\":\"dark\",\"port\":8000}";
    assert_eq!(found(get_project_config(Some(config), "theme").unwrap()), Some("dark".to_string()));
    assert_eq!(found(get_project_config(Some(config), "project_type").unwrap()), Some("Laravel".to_string()));
    assert!(matches!(get_project_config(Some(config), "port").unwrap(), ConfigAnswer::Missing));
    assert!(matches!(get_project_config(Some(config), "nothing").unwrap(), ConfigAnswer::Missing));
    assert!(matches!(get_project_config(Some("{}"), "project_type").unwrap(), ConfigAnswer::AskProjectType));
    assert!(matches!(get_project_config(None, "project_type").unwrap(), ConfigAnswer::AskProjectType));
    assert!(matches!(get_project_config(None, "theme").unwrap(), ConfigAnswer::Missing));
    assert_eq!(get_project_config(Some("{"), "theme").unwrap_err(), malformed("{"));
    assert_eq!(get_project_config(Some("{"), "project_type").unwrap_err(), malformed("{"));
}

#[test]
fn project_config_decision_table() {
    let against = || Some("no document".to_string());
    assert!(matches!(config_answer_from(false, against(), Some("x".to_string()), "k").unwrap(), ConfigAnswer::Missing));
    assert!(matches!(config_answer_from(true, None, None, "project_type").unwrap(), ConfigAnswer::AskProjectType));
    assert_eq!(found(config_answer_from(true, None, Some("x".to_string()), "project_type").unwrap()), Some("x".to_string()));
    assert_eq!(
        config_answer_from(true, against(), Some("x".to_string()), "k").unwrap_err(),
        InspectorError::MalformedDocument("no document".to_string())
    );
}

#[test]
fn project_type_answers_unless_unknown() {
    assert_eq!(project_type_answer(Some("Laravel".to_string())), Some("Laravel".to_string()));
    assert_eq!(project_type_answer(Some("Unknown".to_string())), None);
    assert_eq!(project_type_answer(None), None);
}

#[test]
fn laravel_command_needs_a_name() {
    let c = laravel_command(Some("migrate".to_string()), None).unwrap();
    assert_eq!(c.name, "migrate");
    assert_eq!(c.description, None);
    let c = laravel_command(Some("serve".to_string()), Some("Serve the app".to_string())).unwrap();
    assert_eq!(c.description.as_deref(), Some("Serve the app"));
    assert!(laravel_command(None, Some("x".to_string())).is_none());
}

use loa::config::{
    default_document_text, missing_file_warning_text, Config, Environment, General,
    CONFIG_FILE_NAME,
};
use loa::manager::{start, step, Action, Event, State};

fn config(path: &str, name: &str) -> Config {
    Config {
        general: General { path_to_polars_csv: path.to_string() },
        environment: Environment { name: name.to_string() },
    }
}

fn from_table(table: &toml::Table) -> Option<Config> {
    let path = table.get("general")?.as_table()?.get("path_to_polars_csv")?.as_str()?;
    let name = table.get("Environment")?.as_table()?.get("name")?.as_str()?;
    Some(config(path, name))
}

fn to_table(config: &Config) -> toml::Table {
    let mut general = toml::Table::new();
    general.insert(
        "path_to_polars_csv".to_string(),
        toml::Value::String(config.general.path_to_polars_csv.clone()),
    );
    let mut environment = toml::Table::new();
    environment.insert("name".to_string(), toml::Value::String(config.environment.name.clone()));
    let mut table = toml::Table::new();
    table.insert("general".to_string(), toml::Value::Table(general));
    table.insert("Environment".to_string(), toml::Value::Table(environment));
    table
}

#[test]
fn the_file_is_named_config_toml() {
    assert_eq!(CONFIG_FILE_NAME, "config.toml");
}

#[test]
fn update_config_overwrites_both_fields() {
    let mut loaded = config("./polars.csv", "production");
    let other = config("./new.csv", "development");
    loaded.update_config(&other);
    assert_eq!(loaded, config("./new.csv", "development"));
    assert_eq!(other, config("./new.csv", "development"));
}

#[test]
fn configurations_differ_where_a_field_differs() {
    assert_ne!(config("a", "b"), config("a", "c"));
    assert_ne!(config("a", "b"), config("c", "b"));
}

#[test]
fn refreshed_configuration_carries_the_stamp_in_its_path() {
    assert_eq!(
        Config::refreshed("Instant { tv_sec: 5, tv_nsec: 17 }"),
        config("./Instant { tv_sec: 5, tv_nsec: 17 }polars.csv", "development")
    );
    assert_eq!(Config::refreshed(""), config("./polars.csv", "development"));
}

#[test]
fn report_names_the_path_and_the_environment() {
    let (path_line, environment_line) = config("./polars.csv", "development").report();
    assert_eq!(path_line, "Path to polars csv: ./polars.csv");
    assert_eq!(environment_line, "Environment name: development");
}

#[test]
fn default_document_is_the_fixed_text() {
    assert_eq!(
        default_document_text(),
        "[general]\npath_to_polars_csv = \"./polars.csv\"\n\n[Environment]\nname = \"development\""
    );
}

#[test]
fn default_document_holds_both_sections() {
    let table: toml::Table = default_document_text().parse().unwrap();
    assert_eq!(from_table(&table), Some(config("./polars.csv", "development")));
}

#[test]
fn warning_names_the_path_and_the_reason() {
    assert_eq!(
        missing_file_warning_text("/tmp/config.toml", "No such file or directory (os error 2)"),
        "Creating default config. /tmp/config.toml not found: No such file or directory (os error 2)"
    );
}

#[test]
fn a_configuration_survives_being_written_and_parsed() {
    for written in [
        config("./polars.csv", "development"),
        config("./Instant { tv_sec: 5, tv_nsec: 17 }polars.csv", "development"),
        config("", ""),
        config("C:\\data\\\"quoted\"\n\u{e9}", "tab\there"),
    ] {
        let text = toml::to_string(&to_table(&written)).unwrap();
        let table: toml::Table = text.parse().unwrap();
        assert_eq!(from_table(&table), Some(written));
    }
}

#[test]
fn a_run_begins_by_locating_the_file() {
    let (state, action) = start();
    assert!(matches!(state, State::Locating));
    assert!(matches!(action, Action::Locate("config.toml")));
}

#[test]
fn a_run_with_a_readable_file_goes_through_every_step() {
    let (state, _) = start();
    let (state, action) = step(state, Event::Located);
    assert!(matches!(state, State::Reading));
    assert!(matches!(action, Action::Read));

    let text = "[general]\npath_to_polars_csv = \"./old.csv\"\n[Environment]\nname = \"test\"\n";
    let (state, action) = step(state, Event::Text(text.to_string()));
    assert!(matches!(state, State::Parsing));
    match action {
        Action::Parse { text: handed, warning } => {
            assert_eq!(handed, text);
            assert_eq!(warning, None);
        }
        other => panic!("{other:?}"),
    }

    let (state, action) = step(state, Event::Parsed(config("./old.csv", "test")));
    match &state {
        State::Reporting(kept) => assert_eq!(*kept, config("./old.csv", "test")),
        other => panic!("{other:?}"),
    }
    match action {
        Action::Report { path_line, environment_line } => {
            assert_eq!(path_line, "Path to polars csv: ./old.csv");
            assert_eq!(environment_line, "Environment name: test");
        }
        other => panic!("{other:?}"),
    }

    let (state, action) = step(state, Event::Reported);
    match &state {
        State::Stamping(kept) => assert_eq!(*kept, config("./old.csv", "test")),
        other => panic!("{other:?}"),
    }
    assert!(matches!(action, Action::Stamp));

    let (state, action) = step(state, Event::Stamp("T".to_string()));
    assert!(matches!(state, State::Serializing));
    match action {
        Action::Serialize(merged) => assert_eq!(merged, config("./Tpolars.csv", "development")),
        other => panic!("{other:?}"),
    }

    let (state, action) = step(state, Event::Serialized("text".to_string()));
    assert!(matches!(state, State::Writing));
    match action {
        Action::Write(text) => assert_eq!(text, "text"),
        other => panic!("{other:?}"),
    }

    let (state, action) = step(state, Event::Written);
    assert!(matches!(state, State::Done));
    assert!(matches!(action, Action::Finish));
}

#[test]
fn a_missing_file_is_replaced_by_the_default_document() {
    let event = Event::Missing {
        path: "/work/config.toml".to_string(),
        reason: "No such file or directory (os error 2)".to_string(),
    };
    let (state, action) = step(State::Reading, event);
    assert!(matches!(state, State::Parsing));
    match action {
        Action::Parse { text, warning } => {
            assert_eq!(text, default_document_text());
            assert_eq!(
                warning.as_deref(),
                Some(
                    "Creating default config. /work/config.toml not found: \
                     No such file or directory (os error 2)"
                )
            );
            let table: toml::Table = text.parse().unwrap();
            let loaded = from_table(&table).unwrap();
            let (state, _) = step(state, Event::Parsed(loaded));
            match state {
                State::Reporting(kept) => assert_eq!(kept, config("./polars.csv", "development")),
                other => panic!("{other:?}"),
            }
        }
        other => panic!("{other:?}"),
    }
}

#[test]
fn any_other_failure_is_fatal() {
    let waiting = [
        State::Locating,
        State::Reading,
        State::Parsing,
        State::Reporting(config("a", "b")),
        State::Stamping(config("a", "b")),
        State::Serializing,
        State::Writing,
        State::Failed,
    ];
    for state in waiting {
        let (state, action) = step(state, Event::Failure);
        assert!(matches!(state, State::Failed));
        assert!(matches!(action, Action::Abort));
    }
}

#[test]
fn an_event_that_was_not_waited_for_is_fatal() {
    let (state, action) = step(State::Locating, Event::Written);
    assert!(matches!(state, State::Failed));
    assert!(matches!(action, Action::Abort));
    let (state, action) = step(State::Parsing, Event::Text("late".to_string()));
    assert!(matches!(state, State::Failed));
    assert!(matches!(action, Action::Abort));
    let missing = Event::Missing { path: "p".to_string(), reason: "r".to_string() };
    let (state, action) = step(State::Writing, missing);
    assert!(matches!(state, State::Failed));
    assert!(matches!(action, Action::Abort));
    let (state, action) = step(State::Serializing, Event::Stamp("T".to_string()));
    assert!(matches!(state, State::Failed));
    assert!(matches!(action, Action::Abort));
}

#[test]
fn a_run_that_has_ended_stays_ended() {
    let (state, action) = step(State::Done, Event::Located);
    assert!(matches!(state, State::Done));
    assert!(matches!(action, Action::Finish));
    let (state, action) = step(state, Event::Failure);
    assert!(matches!(state, State::Done));
    assert!(matches!(action, Action::Finish));
    let (state, action) = step(State::Failed, Event::Written);
    assert!(matches!(state, State::Failed));
    assert!(matches!(action, Action::Abort));
}

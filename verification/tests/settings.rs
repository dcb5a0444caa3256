use mxbot_common::settings::{
    parse_input, render, value_or_text, SettingValue, SettingsChange, SettingsError,
    SettingsLoader, SettingsMap, SettingsStore,
};

fn other(json: &str) -> SettingValue {
    SettingValue::Other(json.to_owned())
}

fn text(value: &str) -> SettingValue {
    SettingValue::Text(value.to_owned())
}

fn defaults() -> SettingsMap {
    let mut map = SettingsMap::new();
    map.insert("enabled".to_owned(), other("true"));
    map.insert("time".to_owned(), text("07:00"));
    map.insert("count".to_owned(), other("3"));
    map.insert("language".to_owned(), SettingValue::Null);
    map
}

/// Whether the settings fit a struct of a flag, a time, a number and an
/// optional language.
fn validate(settings: &SettingsMap) -> Result<(), String> {
    let flag = matches!(settings.get("enabled"), Some(SettingValue::Other(v)) if v == "true" || v == "false");
    let time = matches!(settings.get("time"), Some(SettingValue::Text(_)));
    let count = matches!(settings.get("count"), Some(SettingValue::Other(v)) if v.parse::<u32>().is_ok());
    let language = matches!(
        settings.get("language"),
        Some(SettingValue::Text(_)) | Some(SettingValue::Null)
    );
    if flag && time && count && language {
        Ok(())
    } else {
        Err("invalid type".to_owned())
    }
}

fn load_and_list_dropped(stored: Vec<(String, SettingValue)>) -> (SettingsStore, Vec<String>) {
    let mut loader = SettingsLoader::new(defaults(), stored);
    let mut dropped = Vec::new();
    while let Some(candidate) = loader.candidate() {
        let valid = validate(&candidate).is_ok();
        let (key, kept) = loader.decide(valid);
        if !kept {
            dropped.push(key);
        }
    }
    (loader.finish(), dropped)
}

fn load(stored: Vec<(String, SettingValue)>) -> SettingsStore {
    load_and_list_dropped(stored).0
}

fn apply(
    store: &mut SettingsStore,
    change: Result<SettingsChange, SettingsError>,
) -> Result<String, SettingsError> {
    let change = change?;
    let verdict = validate(&store.proposed(&change));
    let change = change.validated(verdict)?;
    assert_eq!(change.made_at(), store.version());
    Ok(store.commit(change))
}

fn set(store: &mut SettingsStore, key: &str, raw: &str) -> Result<String, SettingsError> {
    let change = store.set(key, raw);
    apply(store, change)
}

fn unset(store: &mut SettingsStore, key: &str) -> Result<String, SettingsError> {
    let change = store.unset(key);
    apply(store, change)
}

fn shown(store: &SettingsStore, key: &str) -> Option<String> {
    store.effective().get(key).map(|value| render(&value))
}

fn stored_overrides(store: &SettingsStore) -> Vec<(String, SettingValue)> {
    store
        .overrides()
        .keys()
        .into_iter()
        .map(|key| {
            let value = store.overrides().get(&key).unwrap();
            (key, value)
        })
        .collect()
}

#[test]
fn overrides_persist_validate_and_unset() {
    let mut settings = load(Vec::new());

    assert_eq!(set(&mut settings, "count", "5").unwrap(), "5");
    assert_eq!(set(&mut settings, "time", "08:30").unwrap(), "08:30");
    assert_eq!(set(&mut settings, "language", "de").unwrap(), "de");
    assert!(set(&mut settings, "count", "many").is_err());
    assert!(set(&mut settings, "password", "x").is_err());
    assert_eq!(settings.version(), 3);
    assert_eq!(shown(&settings, "count").as_deref(), Some("5"));

    let mut reloaded = load(stored_overrides(&settings));
    assert_eq!(shown(&reloaded, "time").as_deref(), Some("08:30"));
    assert!(reloaded.describe().contains("count = 5 (changed)"));

    assert_eq!(unset(&mut reloaded, "count").unwrap(), "3");
    assert_eq!(shown(&reloaded, "count").as_deref(), Some("3"));
    assert_eq!(unset(&mut reloaded, "language").unwrap(), "(unset)");
    assert!(matches!(
        reloaded.effective().get("language"),
        Some(SettingValue::Null)
    ));
}

#[test]
fn invalid_persisted_overrides_are_dropped() {
    let settings = load(vec![
        ("count".to_owned(), text("nope")),
        ("enabled".to_owned(), other("false")),
    ]);
    assert_eq!(shown(&settings, "count").as_deref(), Some("3"));
    assert_eq!(shown(&settings, "enabled").as_deref(), Some("false"));
    assert!(!settings.overrides().contains_key("count"));
    assert!(settings.overrides().contains_key("enabled"));
    assert_eq!(settings.version(), 0);
}

#[test]
fn overrides_of_renamed_fields_are_dropped() {
    let (settings, dropped) = load_and_list_dropped(vec![
        ("old_count".to_owned(), other("5")),
        ("count".to_owned(), text("nope")),
        ("enabled".to_owned(), other("false")),
    ]);
    assert_eq!(dropped, vec!["old_count", "count"]);
    assert!(!settings.overrides().contains_key("old_count"));
    assert_eq!(settings.overrides().keys(), vec!["enabled"]);
    assert_eq!(
        settings.describe(),
        "count = 3\nenabled = false (changed)\nlanguage = (unset)\ntime = 07:00"
    );
}

#[test]
fn input_is_json_or_text() {
    let shown = |raw: &str| match parse_input(raw) {
        SettingValue::Null => "null".to_owned(),
        SettingValue::Text(s) => format!("text {s}"),
        SettingValue::Other(s) => format!("json {s}"),
    };
    assert_eq!(shown(" 5 "), "json 5");
    assert_eq!(shown("true"), "json true");
    assert_eq!(shown("null"), "null");
    assert_eq!(shown("\"08:30\""), "text 08:30");
    assert_eq!(shown(" 08:30\t"), "text 08:30");
    assert_eq!(shown("[1, \"a\"]"), "json [1,\"a\"]");
    assert_eq!(shown("{\"b\": 1, \"a\": 2.5}"), "json {\"a\":2.5,\"b\":1}");
    assert_eq!(shown(""), "text ");
}

#[test]
fn what_is_no_json_is_trimmed_text() {
    match value_or_text("  a b ", None) {
        SettingValue::Text(s) => assert_eq!(s, "a b"),
        value => panic!("unexpected {value:?}"),
    }
    match value_or_text("x", Some(other("1"))) {
        SettingValue::Other(s) => assert_eq!(s, "1"),
        value => panic!("unexpected {value:?}"),
    }
}

#[test]
fn settings_errors_are_worded() {
    let mut settings = load(Vec::new());
    assert_eq!(
        set(&mut settings, " password ", "x").unwrap_err().message(),
        "unknown setting \"password\""
    );
    assert_eq!(
        unset(&mut settings, "password").unwrap_err().message(),
        "unknown setting \"password\""
    );
    assert_eq!(
        set(&mut settings, "count", "many").unwrap_err().message(),
        "invalid value: invalid type"
    );
    assert_eq!(settings.version(), 0);
}

#[test]
fn settings_are_described_in_order() {
    let mut settings = load(Vec::new());
    assert_eq!(
        settings.describe(),
        "count = 3\nenabled = true\nlanguage = (unset)\ntime = 07:00"
    );
    set(&mut settings, " time ", "\"09:00\"").unwrap();
    assert_eq!(
        settings.describe(),
        "count = 3\nenabled = true\nlanguage = (unset)\ntime = 09:00 (changed)"
    );
    let empty = SettingsLoader::new(SettingsMap::new(), Vec::new()).finish();
    assert_eq!(empty.describe(), "");
}

#[test]
fn maps_keep_one_value_per_key() {
    let mut map = defaults();
    map.insert("count".to_owned(), other("4"));
    assert_eq!(
        map.keys(),
        vec!["count", "enabled", "language", "time"]
    );
    assert!(matches!(map.get("count"), Some(SettingValue::Other(v)) if v == "4"));
    map.remove("count");
    map.remove("absent");
    assert!(!map.contains_key("count"));
    assert!(map.clone().contains_key("time"));
    assert!(map.get("count").is_none());
}

#[test]
fn a_change_touches_one_setting() {
    let mut settings = load(Vec::new());
    set(&mut settings, "count", "5").unwrap();
    set(&mut settings, "language", "de").unwrap();
    set(&mut settings, "count", "6").unwrap();
    assert_eq!(settings.overrides().keys(), vec!["count", "language"]);
    assert_eq!(shown(&settings, "language").as_deref(), Some("de"));
    unset(&mut settings, "count").unwrap();
    assert_eq!(settings.overrides().keys(), vec!["language"]);
    assert_eq!(
        settings.describe(),
        "count = 3\nenabled = true\nlanguage = de (changed)\ntime = 07:00"
    );
}

#[test]
fn a_change_is_due_for_one_version() {
    let mut settings = load(Vec::new());
    let first = settings.set("count", "5").unwrap();
    let second = settings.set("language", "de").unwrap();
    assert_eq!(first.made_at(), 0);
    assert_eq!(second.made_at(), 0);
    let valid = first.validated(Ok(())).unwrap();
    assert_eq!(settings.proposed_overrides(&valid).keys(), vec!["count"]);
    assert!(settings.overrides().keys().is_empty());
    assert_eq!(settings.commit(valid), "5");
    assert_eq!(settings.version(), 1);
    assert_ne!(second.made_at(), settings.version());
    let again = settings.set("language", "de").unwrap();
    assert_eq!(again.made_at(), 1);
    let valid = again.validated(Ok(())).unwrap();
    settings.commit(valid);
    assert_eq!(settings.overrides().keys(), vec!["count", "language"]);
}

#[test]
fn settings_survive_a_restart() {
    let mut settings = load(Vec::new());
    set(&mut settings, "count", "5").unwrap();
    set(&mut settings, "time", "08:30").unwrap();
    unset(&mut settings, "count").unwrap();
    let reloaded = load(stored_overrides(&settings));
    assert_eq!(reloaded.describe(), settings.describe());
    assert_eq!(shown(&reloaded, "count").as_deref(), Some("3"));
}

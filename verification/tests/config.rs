use mxbot_common::config::{
    config_path_from_args, parse_hh_mm, parse_user_ids, skipped_user_ids, store_path_from_env, AdminDmConfig,
    AllowList, EncryptionStrategy, MatrixConfig, RawAllowList, RoomAllowList, SecurityConfig,
    SkippedEntry, TimeFault, TimeOfDay, UserAllowList, VerificationConfig,
};
use mxbot_common::ids::{MatrixId, OwnedRoomId, OwnedUserId};

fn user(id: &str) -> OwnedUserId {
    OwnedUserId::parse(id).unwrap()
}

/// The value of `[security] allowed_inviters`, as the TOML parser reads it.
fn raw_list(toml: &str, key: &str) -> Option<RawAllowList> {
    let table: toml::Table = toml.parse().unwrap();
    let security = table.get("security")?.as_table().unwrap();
    match security.get(key)? {
        toml::Value::String(keyword) => Some(RawAllowList::Keyword(keyword.clone())),
        toml::Value::Array(list) => Some(RawAllowList::List(
            list.iter().map(|v| v.as_str().unwrap().to_owned()).collect(),
        )),
        other => panic!("unexpected {other:?}"),
    }
}

fn inviters(toml: &str) -> Result<UserAllowList, mxbot_common::config::ConfigError> {
    match raw_list(toml, "allowed_inviters") {
        Some(raw) => UserAllowList::from_raw(&raw),
        None => Ok(UserAllowList::default()),
    }
}

fn rooms(toml: &str) -> Result<RoomAllowList, mxbot_common::config::ConfigError> {
    match raw_list(toml, "allowed_rooms") {
        Some(raw) => RoomAllowList::from_raw(&raw),
        None => Ok(RoomAllowList::default()),
    }
}

fn matrix() -> MatrixConfig {
    MatrixConfig {
        homeserver: "https://example.org".to_owned(),
        user_id: "@bot:example.org".to_owned(),
        access_token: "from-file".to_owned(),
        device_id: "DEV".to_owned(),
        recovery_key: None,
    }
}

#[test]
fn shared_room_verification_is_opt_in() {
    assert!(!VerificationConfig::default().allow_users_from_joined_rooms);

    let table: toml::Table = "allow_users_from_joined_rooms = true".parse().unwrap();
    let enabled = VerificationConfig {
        allow_users_from_joined_rooms: table["allow_users_from_joined_rooms"].as_bool().unwrap(),
        ..VerificationConfig::default()
    };
    assert!(enabled.allow_users_from_joined_rooms);
}

#[test]
fn allow_lists_accept_all_keyword_lists_and_default_to_all() {
    assert!(inviters("").unwrap().is_all());
    assert!(rooms("").unwrap().is_all());

    let all = inviters("[security]\nallowed_inviters = \"all\"").unwrap();
    assert!(all.is_all());

    let list = inviters("[security]\nallowed_inviters = [\"@alice:example.org\"]").unwrap();
    assert!(list.allows(&user("@alice:example.org")));
    assert!(!list.allows(&user("@bob:example.org")));

    let none = inviters("[security]\nallowed_inviters = []").unwrap();
    assert!(none.is_none());
    assert!(!none.allows(&user("@alice:example.org")));
}

#[test]
fn allow_lists_reject_garbage() {
    assert!(inviters("[security]\nallowed_inviters = \"some\"").is_err());
    assert!(rooms("[security]\nallowed_rooms = [\"not-a-room\"]").is_err());
}

#[test]
fn allow_list_errors_name_the_entry() {
    let error = inviters("[security]\nallowed_inviters = \"some\"").unwrap_err();
    assert_eq!(
        error.message,
        "expected \"all\" or a list of Matrix IDs, got \"some\""
    );
    let error = rooms("[security]\nallowed_rooms = [\"!ok:x.org\", \"not-a-room\", \"?\"]")
        .unwrap_err();
    assert_eq!(
        error.message,
        "invalid Matrix ID \"not-a-room\": leading sigil is incorrect or missing"
    );
}

#[test]
fn admin_dm_defaults_are_restrictive() {
    let cfg = AdminDmConfig::default();
    assert!(cfg.enabled);
    assert!(cfg.require_encryption);
    assert!(!cfg.receive_broadcasts);
}

#[test]
fn invalid_admin_ids_are_errors() {
    let cfg = SecurityConfig {
        admin_users: vec!["nope".to_owned()],
        ..SecurityConfig::default()
    };
    assert!(cfg.admins().is_err());
}

#[test]
fn admin_errors_name_the_first_invalid_entry() {
    let cfg = SecurityConfig {
        admin_users: vec![
            "@a:x.org".to_owned(),
            "nope".to_owned(),
            "worse".to_owned(),
        ],
        ..SecurityConfig::default()
    };
    let error = cfg.admins().unwrap_err();
    assert_eq!(
        error.message,
        "Invalid Matrix user ID in admin_users: \"nope\""
    );
    assert_eq!(
        error.cause.as_deref(),
        Some("leading sigil is incorrect or missing")
    );
    let cfg = SecurityConfig {
        admin_users: vec!["@a:x.org".to_owned(), "@a:x.org".to_owned()],
        ..SecurityConfig::default()
    };
    let admins = cfg.admins().unwrap();
    assert_eq!(admins.len(), 1);
    assert!(admins.contains("@a:x.org"));
}

#[test]
fn time_of_day_round_trips_through_serde() {
    let text: String = serde_json::from_str("\"07:30\"").unwrap();
    let t = TimeOfDay::from_str(&text).unwrap();
    assert_eq!(t, TimeOfDay::new(7, 30));
    assert_eq!(serde_json::to_string(&t.to_text()).unwrap(), "\"07:30\"");
    let text: String = serde_json::from_str("\"7pm\"").unwrap();
    assert!(TimeOfDay::from_str(&text).is_err());
}

#[test]
fn hh_mm_parsing() {
    assert_eq!(parse_hh_mm("07:05").unwrap(), (7, 5));
    assert!(parse_hh_mm("24:00").is_err());
    assert!(parse_hh_mm("7").is_err());
}

#[test]
fn every_time_of_day_reads_back() {
    for hour in 0..24 {
        for minute in 0..60 {
            let text = TimeOfDay::new(hour, minute).to_text();
            assert_eq!(text, format!("{hour:02}:{minute:02}"));
            assert_eq!(parse_hh_mm(&text).unwrap(), (hour, minute));
        }
    }
}

#[test]
fn time_errors_say_what_is_wrong() {
    for (value, fault, message) in [
        (" 7 ", TimeFault::NoColon, "invalid time \" 7 \" (expected HH:MM)"),
        ("x:05", TimeFault::Hour, "invalid hour in \"x:05\""),
        ("07:", TimeFault::Minute, "invalid minute in \"07:\""),
        ("07:5:1", TimeFault::Minute, "invalid minute in \"07:5:1\""),
        (
            "23:60",
            TimeFault::Range,
            "invalid time \"23:60\" (expected 00:00-23:59)",
        ),
        ("4294967296:00", TimeFault::Hour, "invalid hour in \"4294967296:00\""),
    ] {
        let error = parse_hh_mm(value).unwrap_err();
        assert_eq!(error.fault, fault);
        assert_eq!(error.message(), message);
    }
    assert_eq!(parse_hh_mm(" +7:5\n").unwrap(), (7, 5));
    assert_eq!(parse_hh_mm("23:59").unwrap(), (23, 59));
}

#[test]
fn environment_overrides_apply_unless_blank() {
    let mut cfg = matrix();
    cfg.apply_env_overrides(None, None);
    assert_eq!(cfg.access_token, "from-file");
    assert_eq!(cfg.recovery_key, None);

    cfg.apply_env_overrides(Some(" \t".to_owned()), Some(String::new()));
    assert_eq!(cfg.access_token, "from-file");
    assert_eq!(cfg.recovery_key, None);

    cfg.apply_env_overrides(Some(" tok ".to_owned()), Some("key".to_owned()));
    assert_eq!(cfg.access_token, " tok ");
    assert_eq!(cfg.recovery_key.as_deref(), Some("key"));
    assert_eq!(cfg.clone().homeserver, "https://example.org");
}

#[test]
fn allow_lists_are_described() {
    assert_eq!(UserAllowList::All.describe(), "everyone");
    let none = UserAllowList::from_raw(&RawAllowList::List(Vec::new())).unwrap();
    assert_eq!(none.describe(), "nobody");
    assert_eq!(none.entries().len(), 0);
    let list = UserAllowList::from_raw(&RawAllowList::List(vec![
        "@b:x.org".to_owned(),
        "@a:x.org".to_owned(),
        "@b:x.org".to_owned(),
        "@B:x.org".to_owned(),
    ]))
    .unwrap();
    assert_eq!(list.describe(), "@B:x.org, @a:x.org, @b:x.org");
    assert_eq!(list.entries().len(), 3);
    assert!(!list.is_all());
    assert!(!list.is_none());
    assert!(list.clone().allows(&user("@a:x.org")));
    let room = OwnedRoomId::parse("!r:x.org").unwrap();
    assert!(AllowList::All.allows(&room));
}

#[test]
fn defaults_of_the_security_table() {
    let cfg = SecurityConfig::default();
    assert_eq!(cfg.encryption_strategy, EncryptionStrategy::IdentityBased);
    assert_eq!(EncryptionStrategy::default(), EncryptionStrategy::IdentityBased);
    assert_eq!(cfg.verification.flow_timeout_secs, 300);
    assert_eq!(cfg.verification.grant_ttl_secs, 600);
    assert_eq!(cfg.verification.max_concurrent, 8);
    assert!(!cfg.admin_dm.require_verified_device);
    assert!(cfg.admins().unwrap().is_empty());
}

#[test]
fn config_path_is_the_first_toml_argument() {
    let args = |list: &[&str]| list.iter().map(|s| s.to_string()).collect::<Vec<_>>();
    assert_eq!(config_path_from_args(&args(&[])), "config.toml");
    assert_eq!(config_path_from_args(&args(&["bot.toml"])), "config.toml");
    assert_eq!(
        config_path_from_args(&args(&["bot", "-v", "a.toml", "b.toml"])),
        "a.toml"
    );
    assert_eq!(config_path_from_args(&args(&["bot", ".toml"])), ".toml");
    assert_eq!(config_path_from_args(&args(&["bot", "a.tom"])), "config.toml");
}

#[test]
fn store_path_defaults_to_store() {
    assert_eq!(store_path_from_env(None), "store");
    assert_eq!(store_path_from_env(Some("/data".to_owned())), "/data");
    assert_eq!(store_path_from_env(Some(String::new())), "");
}

#[test]
fn invalid_user_ids_are_skipped() {
    let users = parse_user_ids(
        "allowed_users",
        &vec![
            "@a:x.org".to_owned(),
            "nope".to_owned(),
            "@a:x.org".to_owned(),
            "@b:y.org".to_owned(),
        ],
    );
    assert_eq!(users.len(), 2);
    assert!(users.contains("@a:x.org") && users.contains("@b:y.org"));
    assert!(!users.contains("nope"));
}

#[test]
fn skipped_users_are_reported() {
    let users: Vec<String> = ["@a:x.org", "nope", "@b", "@c:x.org", "nope"]
        .iter()
        .map(|user| user.to_string())
        .collect();
    let skipped = |entry: &str, error: &str| SkippedEntry {
        field: "allowed_users".to_owned(),
        entry: entry.to_owned(),
        error: error.to_owned(),
    };
    assert_eq!(
        skipped_user_ids("allowed_users", &users),
        vec![
            skipped("nope", "leading sigil is incorrect or missing"),
            skipped("@b", "required colon is missing"),
            skipped("nope", "leading sigil is incorrect or missing"),
        ]
    );
    let parsed = parse_user_ids("allowed_users", &users);
    assert_eq!(parsed.len(), 2);
    assert!(!parsed.contains("nope"));
}

#[test]
fn allow_lists_can_be_compared() {
    let list = |ids: &[&str]| {
        UserAllowList::from_raw(&RawAllowList::List(
            ids.iter().map(|id| id.to_string()).collect(),
        ))
        .unwrap()
    };
    assert_eq!(UserAllowList::All, UserAllowList::default());
    assert_eq!(list(&["@a:x.org", "@b:x.org"]), list(&["@b:x.org", "@a:x.org"]));
    assert_ne!(list(&["@a:x.org"]), list(&["@b:x.org"]));
    assert_ne!(list(&[]), UserAllowList::All);
    assert_ne!(UserAllowList::All, list(&[]));
}

#[test]
fn tables_can_be_cloned() {
    let security = SecurityConfig {
        allowed_inviters: UserAllowList::from_raw(&RawAllowList::List(vec![
            "@a:x.org".to_owned(),
        ]))
        .unwrap(),
        admin_users: vec!["@admin:x.org".to_owned(), "nope".to_owned()],
        encryption_strategy: EncryptionStrategy::OnlyTrusted,
        verification: VerificationConfig {
            allowed_users: vec!["@b:x.org".to_owned()],
            max_concurrent: 3,
            ..VerificationConfig::default()
        },
        ..SecurityConfig::default()
    };
    let copy = security.clone();
    assert_eq!(copy.allowed_inviters, security.allowed_inviters);
    assert_eq!(copy.allowed_rooms, security.allowed_rooms);
    assert_eq!(copy.admin_users, security.admin_users);
    assert_eq!(copy.encryption_strategy, security.encryption_strategy);
    assert_eq!(copy.verification.allowed_users, vec!["@b:x.org"]);
    assert_eq!(copy.verification.max_concurrent, 3);
    assert_eq!(copy.verification.flow_timeout_secs, 300);
    assert!(copy.admin_dm.enabled);
}

use mxbot_common::bot::{account, Bot, BotBuilder};
use mxbot_common::config::{AllowList, MatrixConfig, SecurityConfig};
use mxbot_common::ids::{IdSet, MatrixId, OwnedRoomId, OwnedUserId};
use mxbot_common::logging::default_filter;
use mxbot_common::rooms::RoomInfo;
use mxbot_common::session::{
    cross_signing_summary, needs_bootstrap, request_limits, require_token, session_user,
    CrossSigning,
};
use mxbot_common::sync::SyncRetry;
use mxbot_common::time::Duration;

fn user(id: &str) -> OwnedUserId {
    OwnedUserId::parse(id).unwrap()
}

fn matrix(token: &str, user_id: &str) -> MatrixConfig {
    MatrixConfig {
        homeserver: "https://example.org".to_owned(),
        user_id: user_id.to_owned(),
        access_token: token.to_owned(),
        device_id: "DEV".to_owned(),
        recovery_key: None,
    }
}

fn builder(store: Option<&str>) -> BotBuilder<u32> {
    Bot::builder(
        "quiz".to_owned(),
        "1.0".to_owned(),
        store.map(|s| s.to_owned()),
    )
}

#[test]
fn an_access_token_is_required() {
    assert!(require_token(&matrix("tok", "@bot:x.org")).is_ok());
    let error = require_token(&matrix(" ", "@bot:x.org")).unwrap_err();
    assert_eq!(
        error.message,
        "No Matrix access token for @bot:x.org: set [matrix] access_token or MATRIX_ACCESS_TOKEN"
    );
    let overridden = account(
        &matrix(" ", "@bot:x.org"),
        Some("env".to_owned()),
        Some("  ".to_owned()),
    );
    assert_eq!(overridden.access_token, "env");
    assert_eq!(overridden.recovery_key, None);
    assert!(require_token(&overridden).is_ok());
}

#[test]
fn the_account_is_a_user() {
    let id = session_user(&matrix("tok", "@bot:x.org")).unwrap();
    assert_eq!(id.as_str(), "@bot:x.org");
    assert_eq!(id.localpart(), "bot");
    assert_eq!(id.server_name(), "x.org");
    let error = session_user(&matrix("tok", "bot")).unwrap_err();
    assert_eq!(error.message, "Invalid user_id in config");
    assert!(error.cause.is_some());
}

#[test]
fn cross_signing_is_bootstrapped_unless_complete() {
    let status = |has_master, has_self_signing, has_user_signing| {
        Some(CrossSigning {
            has_master,
            has_self_signing,
            has_user_signing,
        })
    };
    assert!(!needs_bootstrap(status(true, true, true)));
    assert!(needs_bootstrap(status(false, true, true)));
    assert!(needs_bootstrap(status(true, false, true)));
    assert!(needs_bootstrap(status(true, true, false)));
    assert!(needs_bootstrap(None));
    assert_eq!(cross_signing_summary(status(true, true, true)), "complete");
    assert_eq!(cross_signing_summary(status(true, true, false)), "incomplete");
    assert_eq!(cross_signing_summary(None), "unknown");
    let limits = request_limits();
    assert_eq!(limits.timeout, Duration::from_secs(30));
    assert_eq!(limits.retry_limit, 3);
    assert_eq!(limits.max_retry_time, Duration::from_secs(60));
}

#[test]
fn sync_backs_off_and_recovers() {
    let secs = Duration::from_secs;
    let mut retry = SyncRetry::new();
    for expected in [5, 10, 20, 40, 80, 160, 300, 300] {
        let (delay, next) = retry.on_failure();
        assert_eq!(delay, secs(expected));
        retry = next;
    }
    let (delay, retry) = retry.on_exit(secs(59));
    assert_eq!(delay, secs(300));
    let (delay, retry) = retry.on_exit(secs(60));
    assert_eq!(delay, secs(5));
    let (delay, _) = retry.on_exit(secs(1));
    assert_eq!(delay, secs(10));
}

#[test]
fn the_default_filter_keeps_the_sdk_quiet() {
    assert_eq!(
        default_filter("quiz_bot"),
        "quiz_bot=info,mxbot_common=info,matrix_sdk=warn,matrix_sdk_crypto=warn,matrix_sdk_base=warn,warn"
    );
}

#[test]
fn store_directories_have_defaults() {
    let plain = builder(None);
    assert_eq!(plain.store_directory(), "store");
    assert_eq!(plain.matrix_store_directory(), "store");
    let env = builder(Some("/data"));
    assert_eq!(env.store_directory(), "/data");
    let custom = env
        .store_path("/a".to_owned())
        .matrix_store_path("/b".to_owned());
    assert_eq!(custom.store_directory(), "/a");
    assert_eq!(custom.matrix_store_directory(), "/b");
}

#[test]
fn a_started_bot_has_its_services() {
    let mut security = SecurityConfig::default();
    security.admin_users = vec!["@admin:x.org".to_owned()];
    security.allowed_rooms = AllowList::Only(IdSet::from_list(vec![
        OwnedRoomId::parse("!a:x.org").unwrap(),
        OwnedRoomId::parse("!dm:x.org").unwrap(),
    ]));
    let started = builder(None)
        .settings(7)
        .admin_help("!quiz — play".to_owned())
        .start(user("@bot:x.org"), &security)
        .unwrap();
    let bot = started.bot;
    assert_eq!(started.settings, Some(7));
    assert_eq!(bot.user_id.as_str(), "@bot:x.org");
    assert!(bot.is_admin(&user("@admin:x.org")));
    assert!(!bot.is_admin(&user("@eve:x.org")));
    assert_eq!(bot.admins().len(), 1);
    assert!(bot.invites().admins.contains("@admin:x.org"));
    assert!(started.verification.allowed_users().contains("@admin:x.org"));
    assert!(bot.admin.help().ends_with("!quiz — play"));
    let info = |id: &str, target: Option<OwnedUserId>| RoomInfo {
        room_id: OwnedRoomId::parse(id).unwrap(),
        joined: true,
        own_user: user("@bot:x.org"),
        active_members: vec![user("@bot:x.org"), user("@admin:x.org")],
        direct_targets: target.into_iter().map(Some).collect(),
        encrypted: true,
    };
    let rooms = bot.broadcast_rooms(&vec![
        info("!a:x.org", None),
        info("!b:x.org", None),
        info("!dm:x.org", Some(user("@admin:x.org"))),
    ]);
    assert_eq!(rooms.len(), 1);
    assert_eq!(rooms[0].as_str(), "!a:x.org");
}

#[test]
fn invalid_admins_stop_the_start() {
    let mut security = SecurityConfig::default();
    security.admin_users = vec!["nope".to_owned()];
    let error = builder(None)
        .start(user("@bot:x.org"), &security)
        .unwrap_err();
    assert_eq!(
        error.message,
        "Invalid Matrix user ID in admin_users: \"nope\""
    );
}

#[test]
fn sets_of_ids_hold_each_once() {
    let mut set: IdSet<OwnedUserId> = IdSet::new();
    assert!(set.is_empty());
    set.insert(user("@a:x.org"));
    set.insert(user("@a:x.org"));
    assert_eq!(set.len(), 1);
    let other = IdSet::from_list(vec![user("@a:x.org"), user("@b:x.org")]);
    set.extend(&other);
    assert_eq!(set.clone().entries().len(), 2);
    assert!(OwnedUserId::parse("a:x.org").is_err());
    assert!(OwnedUserId::parse("@a").is_err());
}

#[test]
fn user_id_errors_say_what_is_wrong() {
    let error = |text: &str| OwnedUserId::parse(text).unwrap_err().message;
    assert_eq!(error(""), "leading sigil is incorrect or missing");
    assert_eq!(error("a:x.org"), "leading sigil is incorrect or missing");
    assert_eq!(error("@a"), "required colon is missing");
    assert_eq!(
        error("@a:"),
        "server name is not a valid IP address or domain name"
    );
    assert_eq!(
        error("@a\0b:x y"),
        "server name is not a valid IP address or domain name"
    );
    assert_eq!(
        error("@a\0b:x.org"),
        "identifier contains invalid characters"
    );
    let id = user("@a b:x.org:8448");
    assert_eq!(id.localpart(), "a b");
    assert_eq!(id.server_name(), "x.org:8448");
}

#[test]
fn ids_may_be_long() {
    let name = "x".repeat(300);
    assert!(OwnedUserId::parse(&format!("@{name}:x.org")).is_ok());
    assert!(OwnedRoomId::parse(&format!("!{name}")).is_ok());
}

#[test]
fn server_names_are_hosts_with_an_optional_port() {
    for valid in [
        "@a:x.org",
        "@a:1.2.3.4",
        "@a:x-y.org:8448",
        "@a:[::1]",
        "@a:[2001:db8::1]:443",
        "@a:x:1",
    ] {
        assert!(OwnedUserId::parse(valid).is_ok(), "{valid}");
    }
    for invalid in [
        "@a:",
        "@a::1",
        "@a:x_y",
        "@a:x.org:",
        "@a:x.org:65536",
        "@a:x.org:1:2",
        "@a:[::1",
        "@a:[x.org]",
        "@a:[::1]x",
        "@a:ä.org",
    ] {
        assert_eq!(
            OwnedUserId::parse(invalid).unwrap_err().message,
            "server name is not a valid IP address or domain name",
            "{invalid}"
        );
    }
    assert_eq!(user("@a:[::1]:8448").server_name(), "[::1]:8448");
}

#[test]
fn sets_are_equal_when_they_hold_the_same() {
    let ab = IdSet::from_list(vec![user("@a:x.org"), user("@b:x.org")]);
    let ba = IdSet::from_list(vec![user("@b:x.org"), user("@a:x.org"), user("@b:x.org")]);
    let a = IdSet::from_list(vec![user("@a:x.org")]);
    assert_eq!(ab, ba);
    assert_eq!(ab.clone(), ab);
    assert_ne!(ab, a);
    assert_ne!(a, ab);
}

use mxbot_common::admin::{
    device_reply, on_trust, parse, set_reply, unset_reply, verify_reply, Access, AdminAction,
    AdminConsole, Command, Dispatch, EventEncryption, IncomingMessage, StatusFacts, Work,
};
use mxbot_common::config::AdminDmConfig;
use mxbot_common::ids::{IdSet, MatrixId, OwnedRoomId, OwnedUserId};
use mxbot_common::rooms::RoomInfo;
use mxbot_common::session::CrossSigning;
use mxbot_common::settings::{SettingValue, SettingsLoader, SettingsMap, SettingsStore};
use mxbot_common::time::Duration;
use mxbot_common::verify::{ExistingTrust, VerificationService, VerificationSettings};

fn user(id: &str) -> OwnedUserId {
    OwnedUserId::parse(id).unwrap()
}

fn admins() -> IdSet<OwnedUserId> {
    IdSet::from_list(vec![user("@admin:example.org"), user("@other:example.org")])
}

fn console(policy: AdminDmConfig, help: Option<&str>) -> AdminConsole {
    AdminConsole::new(
        "quiz-bot".to_owned(),
        "1.2.3".to_owned(),
        admins(),
        policy,
        help.map(|h| h.to_owned()),
    )
}

fn dm(partner: &str, encrypted: bool) -> RoomInfo {
    RoomInfo {
        room_id: OwnedRoomId::parse("!dm:example.org").unwrap(),
        joined: true,
        own_user: user("@bot:example.org"),
        active_members: vec![user("@bot:example.org"), user(partner)],
        direct_targets: vec![Some(user(partner))],
        encrypted,
    }
}

fn shared_room() -> RoomInfo {
    RoomInfo {
        room_id: OwnedRoomId::parse("!room:example.org").unwrap(),
        joined: true,
        own_user: user("@bot:example.org"),
        active_members: vec![
            user("@bot:example.org"),
            user("@admin:example.org"),
            user("@eve:example.org"),
        ],
        direct_targets: Vec::new(),
        encrypted: true,
    }
}

fn message(sender: &str, body: &str, encryption: EventEncryption) -> IncomingMessage {
    IncomingMessage {
        sender: user(sender),
        body: Some(body.to_owned()),
        encryption,
    }
}

fn service() -> VerificationService {
    VerificationService::new(IdSet::new(), VerificationSettings::default())
}

fn store() -> SettingsStore {
    let mut defaults = SettingsMap::new();
    defaults.insert("count".to_owned(), SettingValue::Other("3".to_owned()));
    defaults.insert("language".to_owned(), SettingValue::Null);
    SettingsLoader::new(defaults, Vec::new()).finish()
}

fn reply_of(work: Work) -> String {
    match work {
        Work::Reply(text) => text,
        other => panic!("expected a reply, got {other:?}"),
    }
}

#[test]
fn console_commands_are_parsed_strictly() {
    assert_eq!(parse("!admin"), Some(Command::Help));
    assert_eq!(parse("!admin status"), Some(Command::Status));
    assert_eq!(
        parse("!admin set daily.time 08:00"),
        Some(Command::SetTo("daily.time".into(), "08:00".into()))
    );
    assert_eq!(
        parse("!admin set language  \"de\" "),
        Some(Command::SetTo("language".into(), "\"de\"".into()))
    );
    assert!(matches!(parse("!admin set key"), Some(Command::Invalid(_))));
    assert_eq!(
        parse("!admin unset language"),
        Some(Command::Unset("language".into()))
    );
    assert!(matches!(
        parse("!admin frobnicate"),
        Some(Command::Invalid(_))
    ));
    assert_eq!(parse("!health"), None);
    assert_eq!(parse("!set foo"), None);
}

#[test]
fn verification_commands_keep_their_legacy_names() {
    assert_eq!(
        parse("!reset-trust @alice:example.org"),
        Some(Command::ResetTrust(user("@alice:example.org")))
    );
    assert_eq!(
        parse("!verify-device @alice:example.org DEVICE"),
        Some(Command::VerifyDevice(
            user("@alice:example.org"),
            "DEVICE".to_owned()
        ))
    );
    assert_eq!(
        parse("!admin reset-trust @alice:example.org"),
        Some(Command::ResetTrust(user("@alice:example.org")))
    );
    assert!(matches!(
        parse("!verify-device @alice:example.org"),
        Some(Command::Invalid(_))
    ));
    assert!(matches!(
        parse("!reset-trust nope"),
        Some(Command::Invalid(_))
    ));
}

#[test]
fn every_console_command_is_recognized() {
    assert_eq!(parse("!admin help"), Some(Command::Help));
    assert_eq!(parse("!admin verify"), Some(Command::Verify));
    assert_eq!(parse("!admin settings"), Some(Command::Settings));
    assert_eq!(
        parse("!admin verify-device @a:x.org DEV"),
        Some(Command::VerifyDevice(user("@a:x.org"), "DEV".to_owned()))
    );
    assert_eq!(parse(""), None);
    assert_eq!(parse("   "), None);
}

#[test]
fn invalid_commands_say_why() {
    assert_eq!(
        parse("!admin set key"),
        Some(Command::Invalid("usage: !admin set <key> <value>"))
    );
    assert_eq!(
        parse("!admin set"),
        Some(Command::Invalid("usage: !admin set <key> <value>"))
    );
    assert_eq!(
        parse("!admin unset"),
        Some(Command::Invalid("usage: !admin unset <key>"))
    );
    assert_eq!(
        parse("!admin unset a b"),
        Some(Command::Invalid("usage: !admin unset <key>"))
    );
    assert_eq!(
        parse("!admin nonsense"),
        Some(Command::Invalid("unknown admin command"))
    );
    assert_eq!(
        parse("!reset-trust"),
        Some(Command::Invalid("expected exactly one Matrix user ID"))
    );
    assert_eq!(
        parse("!reset-trust nope"),
        Some(Command::Invalid("invalid Matrix user ID"))
    );
    assert_eq!(
        parse("!verify-device @a:x.org A B"),
        Some(Command::Invalid(
            "expected exactly a Matrix user ID and device ID"
        ))
    );
    assert_eq!(
        parse("!verify-device nope DEV"),
        Some(Command::Invalid("invalid Matrix user ID"))
    );
}

#[test]
fn set_takes_a_key_and_the_rest() {
    assert_eq!(
        parse("!admin set a b c  d "),
        Some(Command::SetTo("a".into(), "b c  d".into()))
    );
    assert_eq!(
        parse("!admin  set k v"),
        Some(Command::SetTo("k".into(), "v".into()))
    );
    assert_eq!(
        parse(" \t!admin \n set\u{a0} count   5  "),
        Some(Command::SetTo("count".into(), "5".into()))
    );
    assert_eq!(
        parse("!admin  set  key  "),
        Some(Command::Invalid("usage: !admin set <key> <value>"))
    );
}

#[test]
fn a_chat_with_anyone_else_in_it_is_no_admin_chat() {
    let console = console(AdminDmConfig::default(), None);
    let admin = user("@admin:example.org");
    let mut room = dm("@admin:example.org", true);
    room.active_members = vec![user("@bot:example.org"), user("@eve:example.org")];
    assert_eq!(
        console.access(&room, &admin, EventEncryption::Verified),
        Access::Outside
    );
    assert!(!console.is_admin_dm(&room));
    let (dispatch, _) = console.handle(
        None,
        &room,
        &message("@admin:example.org", "!startquiz", EventEncryption::Verified),
    );
    assert_eq!(dispatch, Dispatch::Continue);
}

#[test]
fn access_needs_the_admins_own_encrypted_direct_chat() {
    let console = console(AdminDmConfig::default(), None);
    let admin = user("@admin:example.org");
    let encrypted = EventEncryption::Unverified;
    assert_eq!(
        console.access(&dm("@admin:example.org", true), &admin, encrypted),
        Access::Granted
    );
    assert_eq!(
        console.access(&dm("@other:example.org", true), &admin, encrypted),
        Access::Outside
    );
    assert_eq!(
        console.access(
            &dm("@eve:example.org", true),
            &user("@eve:example.org"),
            encrypted
        ),
        Access::Outside
    );
    assert_eq!(console.access(&shared_room(), &admin, encrypted), Access::Outside);
    assert!(matches!(
        console.access(&dm("@admin:example.org", false), &admin, encrypted),
        Access::Denied(_)
    ));
    assert!(matches!(
        console.access(
            &dm("@admin:example.org", true),
            &admin,
            EventEncryption::Unencrypted
        ),
        Access::Denied(_)
    ));
}

#[test]
fn access_follows_the_policy() {
    let admin = user("@admin:example.org");
    let room = dm("@admin:example.org", true);
    let strict = console(
        AdminDmConfig {
            require_verified_device: true,
            ..AdminDmConfig::default()
        },
        None,
    );
    assert_eq!(
        strict.access(&room, &admin, EventEncryption::Unverified),
        Access::Denied(
            "admin commands need a verified device — verify this session with the bot (!admin verify) or with your other sessions"
        )
    );
    assert_eq!(
        strict.access(&room, &admin, EventEncryption::Verified),
        Access::Granted
    );
    let open = console(
        AdminDmConfig {
            require_encryption: false,
            ..AdminDmConfig::default()
        },
        None,
    );
    assert_eq!(
        open.access(
            &dm("@admin:example.org", false),
            &admin,
            EventEncryption::Unencrypted
        ),
        Access::Granted
    );
    let disabled = console(
        AdminDmConfig {
            enabled: false,
            ..AdminDmConfig::default()
        },
        None,
    );
    assert_eq!(
        disabled.access(&room, &admin, EventEncryption::Verified),
        Access::Outside
    );
}

#[test]
fn admins_are_recognized() {
    let console = console(AdminDmConfig::default(), None);
    assert!(console.is_admin(&user("@admin:example.org")));
    assert!(!console.is_admin(&user("@eve:example.org")));
    assert_eq!(console.admins().len(), 2);
    assert!(console.is_admin_dm(&dm("@admin:example.org", false)));
    assert!(!console.is_admin_dm(&dm("@eve:example.org", true)));
    assert!(!console.is_admin_dm(&shared_room()));
}

#[test]
fn messages_are_dispatched() {
    let console = console(AdminDmConfig::default(), None);
    let room = dm("@admin:example.org", true);
    let encrypted = EventEncryption::Unverified;

    let (dispatch, action) = console.handle(
        None,
        &room,
        &message("@admin:example.org", " !admin status ", encrypted),
    );
    assert_eq!(dispatch, Dispatch::Handled);
    assert!(matches!(
        action,
        AdminAction::Run {
            command: Command::Status,
            reply: true
        }
    ));

    let (dispatch, action) = console.handle(
        None,
        &room,
        &message("@admin:example.org", "!startquiz", encrypted),
    );
    assert_eq!(dispatch, Dispatch::AdminDm);
    assert!(matches!(action, AdminAction::Nothing));

    let (dispatch, action) = console.handle(
        None,
        &room,
        &message("@admin:example.org", "hello", encrypted),
    );
    assert_eq!(dispatch, Dispatch::Continue);
    assert!(matches!(action, AdminAction::Nothing));

    let own = user("@admin:example.org");
    let (dispatch, _) = console.handle(
        Some(&own),
        &room,
        &message("@admin:example.org", "!admin", encrypted),
    );
    assert_eq!(dispatch, Dispatch::Continue);

    let image = IncomingMessage {
        sender: user("@admin:example.org"),
        body: None,
        encryption: encrypted,
    };
    let (dispatch, _) = console.handle(None, &room, &image);
    assert_eq!(dispatch, Dispatch::Continue);
}

#[test]
fn refusals_are_answered_with_the_reason() {
    let console = console(AdminDmConfig::default(), None);
    let (dispatch, action) = console.handle(
        None,
        &dm("@admin:example.org", false),
        &message(
            "@admin:example.org",
            "!anything",
            EventEncryption::Unencrypted,
        ),
    );
    assert_eq!(dispatch, Dispatch::Handled);
    match action {
        AdminAction::Reply(text) => assert_eq!(
            text,
            "⛔ admin commands need an end-to-end encrypted chat — enable encryption here or start a new encrypted direct chat."
        ),
        other => panic!("unexpected {other:?}"),
    }
}

#[test]
fn shared_rooms_only_take_verification_commands_silently() {
    let console = console(AdminDmConfig::default(), None);
    let room = shared_room();
    let encrypted = EventEncryption::Unverified;

    let (dispatch, action) = console.handle(
        None,
        &room,
        &message(
            "@admin:example.org",
            "!reset-trust @alice:example.org",
            encrypted,
        ),
    );
    assert_eq!(dispatch, Dispatch::Handled);
    assert!(matches!(action, AdminAction::Run { reply: false, .. }));

    let (dispatch, action) = console.handle(
        None,
        &room,
        &message("@admin:example.org", "!admin status", encrypted),
    );
    assert_eq!(dispatch, Dispatch::Handled);
    match action {
        AdminAction::Reply(text) => assert_eq!(
            text,
            "🔒 Admin commands are only available in a direct chat with me."
        ),
        other => panic!("unexpected {other:?}"),
    }

    for body in ["!reset-trust @alice:example.org", "!admin status"] {
        let (dispatch, action) =
            console.handle(None, &room, &message("@eve:example.org", body, encrypted));
        assert_eq!(dispatch, Dispatch::Handled);
        assert!(matches!(action, AdminAction::Nothing));
    }

    let (dispatch, action) = console.handle(
        None,
        &room,
        &message("@eve:example.org", "!startquiz", encrypted),
    );
    assert_eq!(dispatch, Dispatch::Continue);
    assert!(matches!(action, AdminAction::Nothing));
}

#[test]
fn help_lists_the_bots_own_commands() {
    let plain = console(AdminDmConfig::default(), None).help();
    assert_eq!(
        plain,
        "quiz-bot admin commands:\n\
         !admin status — bot, session and trust status\n\
         !admin verify — verify each other (emoji SAS)\n\
         !admin settings — show runtime settings\n\
         !admin set <key> <value> — change a runtime setting\n\
         !admin unset <key> — revert a setting to the config file\n\
         !reset-trust <user> — allow one re-verification of <user>\n\
         !verify-device <user> <device> — verify a specific device"
    );
    let extended = console(AdminDmConfig::default(), Some("!startquiz — start")).help();
    assert_eq!(
        extended,
        format!("{plain}\n\nBot commands (also usable here):\n!startquiz — start")
    );
}

#[test]
fn status_is_written_out() {
    let console = console(AdminDmConfig::default(), None);
    let facts = StatusFacts {
        user_id: Some("@quiz:example.org".to_owned()),
        device_id: Some("DEV".to_owned()),
        uptime_secs: 3600 * 26 + 5 * 60 + 59,
        joined_rooms: 12,
        cross_signing: Some(CrossSigning {
            has_master: true,
            has_self_signing: true,
            has_user_signing: true,
        }),
        own_device_signed: Some(true),
        trust: ExistingTrust::Verified,
    };
    assert_eq!(
        console.status(&facts),
        "quiz-bot 1.2.3\n\
         Account: @quiz:example.org (device DEV)\n\
         Uptime: 26h 05m\n\
         Joined rooms: 12\n\
         Cross-signing: complete, this device signed\n\
         You: verified\n\
         Admins: 2\n\
         Admin chats: encryption required, verified device optional"
    );
    let facts = StatusFacts {
        user_id: None,
        device_id: None,
        uptime_secs: 0,
        joined_rooms: 0,
        cross_signing: None,
        own_device_signed: None,
        trust: ExistingTrust::Unverified,
    };
    assert_eq!(
        console.status(&facts),
        "quiz-bot 1.2.3\n\
         Account:  (device )\n\
         Uptime: 0h 00m\n\
         Joined rooms: 0\n\
         Cross-signing: unknown, this device NOT signed\n\
         You: not verified\n\
         Admins: 2\n\
         Admin chats: encryption required, verified device optional"
    );
}

#[test]
fn commands_without_settings_say_so() {
    let console = console(AdminDmConfig::default(), None);
    let now = Duration::from_secs(0);
    for command in [
        Command::Settings,
        Command::SetTo("a".into(), "b".into()),
        Command::Unset("a".into()),
    ] {
        let work = console.run(command, None, &mut service(), now);
        assert_eq!(reply_of(work), "This bot has no runtime settings.");
    }
    let empty = SettingsLoader::new(SettingsMap::new(), Vec::new()).finish();
    let work = console.run(Command::Settings, Some(&empty), &mut service(), now);
    assert_eq!(reply_of(work), "This bot has no runtime settings.");
}

#[test]
fn settings_commands_plan_changes() {
    let console = console(AdminDmConfig::default(), None);
    let now = Duration::from_secs(0);
    let mut store = store();

    let work = console.run(Command::Settings, Some(&store), &mut service(), now);
    assert_eq!(
        reply_of(work),
        "Runtime settings:\ncount = 3\nlanguage = (unset)"
    );

    let work = console.run(
        Command::SetTo("password".into(), "x".into()),
        Some(&store),
        &mut service(),
        now,
    );
    assert_eq!(reply_of(work), "❌ unknown setting \"password\"");

    let work = console.run(
        Command::SetTo("count".into(), "5".into()),
        Some(&store),
        &mut service(),
        now,
    );
    let Work::SetTo { key, change } = work else {
        panic!("expected a change");
    };
    let shown = store.commit(change.validated(Ok(())).unwrap());
    assert_eq!(set_reply(&key, Ok(shown)), "✅ count = 5");

    let work = console.run(
        Command::Unset("count".into()),
        Some(&store),
        &mut service(),
        now,
    );
    let Work::Unset { key, change } = work else {
        panic!("expected a change");
    };
    let shown = store.commit(change.validated(Ok(())).unwrap());
    assert_eq!(
        unset_reply(&key, Ok(shown)),
        "✅ count reverted to the configured value (3)"
    );
    assert_eq!(set_reply("count", Err("no".to_owned())), "❌ no");
    assert_eq!(unset_reply("count", Err("no".to_owned())), "❌ no");
}

#[test]
fn verification_commands_grant_once() {
    let console = console(AdminDmConfig::default(), None);
    let now = Duration::from_secs(10);
    let alice = user("@alice:example.org");
    let device = "DEV".to_owned();

    let mut verification = service();
    let work = console.run(
        Command::ResetTrust(alice.clone()),
        None,
        &mut verification,
        now,
    );
    assert_eq!(
        reply_of(work),
        "✅ @alice:example.org may verify with me once in the next few minutes."
    );
    assert!(verification.authorize(&alice, None, ExistingTrust::Verified, false, now));
    assert!(!verification.authorize(&alice, None, ExistingTrust::Verified, false, now));

    let mut verification = service();
    let work = console.run(
        Command::VerifyDevice(alice.clone(), device.clone()),
        None,
        &mut verification,
        now,
    );
    assert!(matches!(work, Work::RequestDevice { .. }));
    assert!(verification
        .request_device_verification(&alice, &device, now)
        .is_ok());
    assert_eq!(
        device_reply(&alice, &device, Ok(())),
        "🔐 Verification request sent to @alice:example.org (DEV)."
    );
    assert_eq!(
        device_reply(&alice, &device, Err("gone".to_owned())),
        "❌ Could not start verification: gone"
    );
}

#[test]
fn other_commands_are_run() {
    let console = console(AdminDmConfig::default(), None);
    let now = Duration::from_secs(0);
    assert_eq!(
        reply_of(console.run(Command::Help, None, &mut service(), now)),
        console.help()
    );
    assert!(matches!(
        console.run(Command::Status, None, &mut service(), now),
        Work::Status
    ));
    assert!(matches!(
        console.run(Command::Verify, None, &mut service(), now),
        Work::CheckTrust
    ));
    assert_eq!(
        reply_of(console.run(
            Command::Invalid("unknown admin command"),
            None,
            &mut service(),
            now
        )),
        "❌ unknown admin command. Send !admin for help."
    );
}

#[test]
fn verify_goes_by_the_trust_in_the_sender() {
    assert_eq!(
        on_trust(ExistingTrust::Verified).as_deref(),
        Some("✅ You and I are already verified. To re-verify (e.g. after resetting your identity) run `!reset-trust` for yourself first.")
    );
    assert_eq!(on_trust(ExistingTrust::Unverified), None);
    assert_eq!(on_trust(ExistingTrust::VerificationViolation), None);
    assert_eq!(
        verify_reply(Ok(())),
        "🔐 Verification request sent — accept it in your client and compare the emojis."
    );
    assert_eq!(
        verify_reply(Err("offline".to_owned())),
        "❌ Could not start verification: offline"
    );
}

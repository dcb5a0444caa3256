use mxbot_common::config::{AllowList, RoomAllowList, UserAllowList};
use mxbot_common::ids::{IdSet, MatrixId, OwnedRoomId, OwnedUserId};
use mxbot_common::rooms::{
    admin_dm_partner, broadcast_rooms, is_join_terminal, on_member_event, on_pending_invite,
    parse_room_id, via_servers, InviteAction, InviteDecision, InvitePolicy, JoinEvent, JoinRetry,
    JoinStep, MemberEvent, RoomInfo,
};
use mxbot_common::time::Duration;

fn user(id: &str) -> OwnedUserId {
    OwnedUserId::parse(id).unwrap()
}

fn room(id: &str) -> OwnedRoomId {
    OwnedRoomId::parse(id).unwrap()
}

fn policy(inviters: UserAllowList, rooms: RoomAllowList) -> InvitePolicy {
    InvitePolicy {
        inviters,
        rooms,
        admins: IdSet::from_list(vec![user("@admin:example.org")]),
    }
}

fn info(id: &str, targets: Vec<Option<OwnedUserId>>) -> RoomInfo {
    RoomInfo {
        room_id: room(id),
        joined: true,
        own_user: user("@bot:example.org"),
        active_members: vec![user("@bot:example.org"), user("@admin:example.org")],
        direct_targets: targets,
        encrypted: true,
    }
}

#[test]
fn admin_direct_chats_bypass_both_allow_lists() {
    let p = policy(
        UserAllowList::Only(IdSet::new()),
        RoomAllowList::Only(IdSet::new()),
    );
    let room = room("!dm:example.org");
    assert_eq!(
        p.decide(Some(&user("@admin:example.org")), &room, true),
        InviteDecision::Accept
    );
    assert_eq!(
        p.decide(Some(&user("@admin:example.org")), &room, false),
        InviteDecision::RejectRoom
    );
    assert_eq!(
        p.decide(Some(&user("@eve:example.org")), &room, true),
        InviteDecision::RejectInviter
    );
}

#[test]
fn unknown_inviter_is_only_accepted_when_everyone_may_invite() {
    let room = room("!room:example.org");
    assert_eq!(
        policy(UserAllowList::All, RoomAllowList::All).decide(None, &room, false),
        InviteDecision::Accept
    );
    let only = UserAllowList::Only(IdSet::from_list(vec![user("@alice:example.org")]));
    assert_eq!(
        policy(only, RoomAllowList::All).decide(None, &room, false),
        InviteDecision::RejectInviter
    );
}

#[test]
fn via_servers_are_deduplicated() {
    let via = via_servers(&room("!r:example.org"), Some(&user("@a:example.org")));
    assert_eq!(via.len(), 1);
    let via = via_servers(&room("!r:other.org"), Some(&user("@a:example.org")));
    assert_eq!(via.len(), 2);
}

#[test]
fn via_servers_start_with_the_inviters() {
    assert_eq!(
        via_servers(&room("!r:other.org:8448"), Some(&user("@a:example.org"))),
        vec!["example.org".to_owned(), "other.org:8448".to_owned()]
    );
    assert_eq!(
        via_servers(&room("!r:other.org"), None),
        vec!["other.org".to_owned()]
    );
    assert_eq!(
        via_servers(&room("!noserver"), None),
        Vec::<String>::new()
    );
}

#[test]
fn invites_are_answered() {
    let p = policy(
        UserAllowList::Only(IdSet::from_list(vec![user("@alice:example.org")])),
        RoomAllowList::All,
    );
    let bot = user("@bot:example.org");
    let event = MemberEvent {
        sender: user("@alice:example.org"),
        state_key: bot.clone(),
        is_direct: None,
    };
    let id = room("!r:other.org");
    match on_member_event(&p, Some(&bot), &id, true, &event) {
        Some(InviteAction::Join(via)) => assert_eq!(via, vec!["example.org", "other.org"]),
        other => panic!("unexpected {other:?}"),
    }
    assert!(on_member_event(&p, Some(&bot), &id, false, &event).is_none());
    assert!(on_member_event(&p, None, &id, true, &event).is_none());
    assert!(on_member_event(&p, Some(&user("@x:y.org")), &id, true, &event).is_none());

    let stranger = MemberEvent {
        sender: user("@eve:example.org"),
        state_key: bot.clone(),
        is_direct: Some(true),
    };
    assert!(matches!(
        on_member_event(&p, Some(&bot), &id, true, &stranger),
        Some(InviteAction::Leave(InviteDecision::RejectInviter))
    ));
    assert!(matches!(
        on_pending_invite(&p, None, &id, Some(true)),
        InviteAction::Leave(InviteDecision::RejectInviter)
    ));
    assert!(matches!(
        on_pending_invite(&p, Some(&user("@admin:example.org")), &id, None),
        InviteAction::Join(_)
    ));
}

#[test]
fn some_join_errors_are_terminal() {
    assert!(is_join_terminal("the server said: [404] No known servers"));
    assert!(is_join_terminal("M_FORBIDDEN"));
    assert!(is_join_terminal("x M_UNKNOWN_TOKEN y"));
    assert!(is_join_terminal("M_GUEST_ACCESS_FORBIDDEN"));
    assert!(!is_join_terminal("M_LIMIT_EXCEEDED"));
    assert!(!is_join_terminal(""));
}

#[test]
fn joining_is_retried_with_growing_delays() {
    let failed = JoinEvent::Failed("timeout".to_owned());
    let mut retry = JoinRetry::new();
    let mut delays = Vec::new();
    loop {
        let attempt = retry.attempt();
        match retry.on_event(&failed) {
            (JoinStep::RetryIn(delay), Some(next)) => {
                delays.push(delay);
                assert_eq!(next.attempt(), attempt + 1);
                retry = next;
            }
            (JoinStep::GiveUp, None) => {
                assert_eq!(attempt, 8);
                break;
            }
            other => panic!("unexpected {other:?}"),
        }
    }
    let expected: Vec<Duration> = [2, 4, 8, 16, 32, 64, 128]
        .iter()
        .map(|&secs| Duration::from_secs(secs))
        .collect();
    assert_eq!(delays, expected);
}

#[test]
fn joining_stops_on_success_and_on_terminal_errors() {
    assert!(matches!(
        JoinRetry::new().on_event(&JoinEvent::Joined),
        (JoinStep::Joined, None)
    ));
    assert!(matches!(
        JoinRetry::new().on_event(&JoinEvent::Failed("M_FORBIDDEN".to_owned())),
        (JoinStep::GiveUp, None)
    ));
}

#[test]
fn admin_direct_chats_are_found() {
    let admins = IdSet::from_list(vec![user("@admin:example.org")]);
    let admin = || Some(user("@admin:example.org"));
    let partner = admin_dm_partner(&info("!dm:x.org", vec![admin()]), &admins).unwrap();
    assert_eq!(partner.as_str(), "@admin:example.org");

    assert!(admin_dm_partner(&info("!dm:x.org", vec![]), &admins).is_none());
    assert!(admin_dm_partner(&info("!dm:x.org", vec![None]), &admins).is_none());
    let eve = Some(user("@eve:example.org"));
    assert!(admin_dm_partner(&info("!dm:x.org", vec![eve]), &admins).is_none());
    let two = vec![admin(), Some(user("@eve:example.org"))];
    assert!(admin_dm_partner(&info("!dm:x.org", two), &admins).is_none());

    let mut crowded = info("!dm:x.org", vec![admin()]);
    crowded.active_members.push(user("@eve:example.org"));
    assert!(admin_dm_partner(&crowded, &admins).is_none());
    let mut replaced = info("!dm:x.org", vec![admin()]);
    replaced.active_members = vec![user("@bot:example.org"), user("@eve:example.org")];
    assert!(admin_dm_partner(&replaced, &admins).is_none());
    let mut alone = info("!dm:x.org", vec![admin()]);
    alone.active_members = vec![user("@bot:example.org")];
    assert!(admin_dm_partner(&alone, &admins).is_some());
    let mut left = info("!dm:x.org", vec![admin()]);
    left.joined = false;
    assert!(admin_dm_partner(&left, &admins).is_none());
}

#[test]
fn broadcasts_skip_admin_chats_and_other_rooms() {
    let admins = IdSet::from_list(vec![user("@admin:example.org")]);
    let joined = vec![
        info("!a:x.org", vec![]),
        info("!dm:x.org", vec![Some(user("@admin:example.org"))]),
        info("!b:x.org", vec![]),
    ];
    let ids = |list: Vec<OwnedRoomId>| -> Vec<String> {
        list.iter().map(|id| id.as_str().to_owned()).collect()
    };
    assert_eq!(
        ids(broadcast_rooms(&joined, &AllowList::All, &admins, false)),
        vec!["!a:x.org", "!b:x.org"]
    );
    assert_eq!(
        ids(broadcast_rooms(&joined, &AllowList::All, &admins, true)),
        vec!["!a:x.org", "!dm:x.org", "!b:x.org"]
    );
    let only = AllowList::Only(IdSet::from_list(vec![room("!b:x.org")]));
    assert_eq!(
        ids(broadcast_rooms(&joined, &only, &admins, true)),
        vec!["!b:x.org"]
    );
}

#[test]
fn room_ids_are_parsed_with_a_helpful_error() {
    assert_eq!(
        parse_room_id("log_room", "!r:x.org").unwrap().as_str(),
        "!r:x.org"
    );
    let error = parse_room_id("log_room", "#r:x.org").unwrap_err();
    assert_eq!(
        error.message,
        "Invalid room ID in log_room: \"#r:x.org\" (leading sigil is incorrect or missing)"
    );
    let error = parse_room_id("log_room", "!r\0").unwrap_err();
    assert_eq!(
        error.message,
        "Invalid room ID in log_room: \"!r\\0\" (identifier contains invalid characters)"
    );
}

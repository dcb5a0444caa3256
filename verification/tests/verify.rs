use mxbot_common::config::{UserAllowList, VerificationConfig};
use mxbot_common::ids::{IdSet, MatrixId, OwnedRoomId, OwnedUserId};
use mxbot_common::time::Duration;
use mxbot_common::verify::{
    authorization_requires_grant, cancellation_timeout, consume_matching_grant, existing_trust,
    flow_device, flow_step, is_join_terminal, request_device_id, request_step, reserve_flow,
    sas_challenge, sas_step,
    service_for_user, transport_of, trust_summary, Admission, ApprovalDecision,
    DeviceRequestError, ExistingTrust, FlowAction, FlowEvent, FlowKey, FlowPhase, FlowSet, Grants, IdentityLookup, RequestState,
    RequestStep, Reservation, SasAction, SasEvent, SasPhase, VerificationGrant,
    VerificationService, VerificationSettings, VerificationTransport,
};

fn user(id: &str) -> OwnedUserId {
    OwnedUserId::parse(id).unwrap()
}

fn at(secs: u64) -> Duration {
    Duration::from_secs(secs)
}

fn flow(user_id: &str, flow_id: &str) -> FlowKey {
    FlowKey {
        user_id: user(user_id),
        flow_id: flow_id.to_owned(),
    }
}

fn settings(max_concurrent: usize) -> VerificationSettings {
    VerificationSettings {
        max_concurrent,
        ..VerificationSettings::default()
    }
}

#[test]
fn user_grant_is_single_use() {
    let user_id = user("@alice:example.org");
    let now = at(1_000);
    let mut grants = Grants::new();
    grants.insert(
        user_id.clone(),
        VerificationGrant {
            device_id: None,
            expires_at: now.plus(at(60)),
        },
    );
    assert!(consume_matching_grant(
        &mut grants,
        &user_id,
        Some(&"DEVICE".to_owned()),
        now,
    ));
    assert!(!consume_matching_grant(
        &mut grants,
        &user_id,
        Some(&"DEVICE".to_owned()),
        now,
    ));
}

#[test]
fn device_grant_only_matches_the_expected_device() {
    let now = at(1_000);
    let grant = VerificationGrant {
        device_id: Some("EXPECTED".to_owned()),
        expires_at: now.plus(at(60)),
    };
    assert!(grant.matches(Some(&"EXPECTED".to_owned()), now));
    assert!(!grant.matches(Some(&"OTHER".to_owned()), now));
    assert!(!grant.matches(None, now));
}

#[test]
fn expired_grant_never_matches() {
    let now = at(1_000);
    let grant = VerificationGrant {
        device_id: None,
        expires_at: at(999),
    };
    assert!(!grant.matches(None, now));
    let grant = VerificationGrant {
        device_id: None,
        expires_at: now,
    };
    assert!(!grant.matches(None, now));
}

#[test]
fn flow_reservation_suppresses_duplicates_and_bounds_each_user() {
    let first = flow("@alice:example.org", "first");
    let same_user = flow("@alice:example.org", "second");
    let other_user = flow("@bob:example.org", "first");
    let mut active = FlowSet::new();

    assert_eq!(reserve_flow(&mut active, &first), Reservation::Reserved);
    assert_eq!(reserve_flow(&mut active, &first), Reservation::Duplicate);
    assert_eq!(
        reserve_flow(&mut active, &same_user),
        Reservation::Concurrent
    );
    assert_eq!(
        reserve_flow(&mut active, &other_user),
        Reservation::Reserved
    );
    assert_eq!(active.len(), 2);
}

#[test]
fn only_allowlisted_first_contact_skips_a_grant() {
    assert!(!authorization_requires_grant(
        true,
        ExistingTrust::Unverified
    ));
    assert!(authorization_requires_grant(
        false,
        ExistingTrust::Unverified
    ));
    assert!(authorization_requires_grant(true, ExistingTrust::Verified));
    assert!(authorization_requires_grant(
        true,
        ExistingTrust::VerificationViolation
    ));
}

#[test]
fn the_first_matching_grant_is_used() {
    let alice = user("@alice:example.org");
    let bob = user("@bob:example.org");
    let now = at(100);
    let mut grants = Grants::new();
    for (who, device, expires) in [
        (&alice, None, 100),
        (&alice, Some("A"), 200),
        (&bob, Some("B"), 200),
        (&alice, None, 200),
        (&alice, Some("B"), 200),
    ] {
        grants.insert(
            who.clone(),
            VerificationGrant {
                device_id: device.map(|d: &str| d.to_owned()),
                expires_at: at(expires),
            },
        );
    }
    let b = "B".to_owned();
    assert!(consume_matching_grant(&mut grants, &alice, Some(&b), now));
    assert!(consume_matching_grant(&mut grants, &alice, Some(&b), now));
    assert!(!consume_matching_grant(&mut grants, &alice, Some(&b), now));
    assert!(!consume_matching_grant(&mut grants, &alice, None, now));
    assert!(consume_matching_grant(
        &mut grants,
        &alice,
        Some(&"A".to_owned()),
        now
    ));
    assert!(consume_matching_grant(&mut grants, &bob, Some(&b), now));
    assert!(!consume_matching_grant(&mut grants, &bob, Some(&b), now));
}

#[test]
fn flows_end_when_they_are_removed() {
    let first = flow("@alice:example.org", "first");
    let mut active = FlowSet::new();
    reserve_flow(&mut active, &first);
    reserve_flow(&mut active, &flow("@bob:example.org", "x"));
    active.remove(&flow("@alice:example.org", "other"));
    assert_eq!(active.len(), 2);
    active.remove(&first);
    assert_eq!(active.len(), 1);
    assert_eq!(reserve_flow(&mut active, &first), Reservation::Reserved);
}

#[test]
fn requests_are_admitted_up_to_the_limit() {
    let mut service = VerificationService::new(IdSet::new(), settings(2));
    let alice = flow("@alice:example.org", "1");
    assert_eq!(service.begin(&alice, true), Admission::Terminal);
    assert_eq!(service.begin(&alice, false), Admission::Admitted);
    assert_eq!(service.begin(&alice, false), Admission::Duplicate);
    assert_eq!(
        service.begin(&flow("@alice:example.org", "2"), false),
        Admission::Concurrent
    );
    assert_eq!(
        service.begin(&flow("@bob:example.org", "1"), false),
        Admission::Admitted
    );
    let carol = flow("@carol:example.org", "1");
    assert_eq!(service.begin(&carol, false), Admission::Full);
    assert_eq!(service.active_flows(), 2);
    service.finish(&alice);
    assert_eq!(service.begin(&carol, false), Admission::Admitted);
}

#[test]
fn at_least_one_flow_is_possible() {
    let mut service = VerificationService::new(IdSet::new(), settings(0));
    assert_eq!(
        service.begin(&flow("@alice:example.org", "1"), false),
        Admission::Admitted
    );
    assert_eq!(
        service.begin(&flow("@bob:example.org", "1"), false),
        Admission::Full
    );
}

#[test]
fn authorization_uses_up_grants() {
    let alice = user("@alice:example.org");
    let device = "DEV".to_owned();
    let mut service = VerificationService::allowlisted_tofu(
        IdSet::from_list(vec![alice.clone()]),
        VerificationSettings::default(),
    );
    assert_eq!(service.standing_approval(), Some(ApprovalDecision::Approve));
    let now = at(0);
    assert!(service.authorize(&alice, None, ExistingTrust::Unverified, false, now));
    assert!(!service.authorize(&alice, None, ExistingTrust::Verified, false, now));

    service.grant_user(alice.clone(), now);
    assert!(!service.authorize(&alice, None, ExistingTrust::Verified, false, at(600)));
    service.grant_user(alice.clone(), now);
    assert!(service.authorize(&alice, None, ExistingTrust::Verified, false, at(599)));
    assert!(!service.authorize(&alice, None, ExistingTrust::Verified, false, at(599)));

    service.grant_device(alice.clone(), device.clone(), now);
    assert!(!service.authorize(
        &alice,
        Some(&"OTHER".to_owned()),
        ExistingTrust::VerificationViolation,
        false,
        now
    ));
    assert!(service.authorize(&alice, Some(&device), ExistingTrust::Unverified, false, now));
    assert!(!service.authorize(&alice, Some(&device), ExistingTrust::Verified, false, now));
}

#[test]
fn sharing_a_room_helps_only_where_configured() {
    let alice = user("@alice:example.org");
    let admins = IdSet::from_list(vec![user("@admin:example.org")]);
    let closed = VerificationConfig::default();
    let open = VerificationConfig {
        allow_users_from_joined_rooms: true,
        ..VerificationConfig::default()
    };
    let now = at(0);
    let mut service = VerificationService::from_config(&closed, &UserAllowList::All, &admins);
    assert!(!service.allows_joined_rooms());
    assert!(!service.authorize(&alice, None, ExistingTrust::Unverified, true, now));
    let mut service = VerificationService::from_config(&open, &UserAllowList::All, &admins);
    assert!(service.allows_joined_rooms());
    assert!(service.authorize(&alice, None, ExistingTrust::Unverified, true, now));
    assert!(!service.authorize(&alice, None, ExistingTrust::Unverified, false, now));
    assert!(!service.authorize(&alice, None, ExistingTrust::Verified, true, now));
}

#[test]
fn the_configuration_says_who_may_verify() {
    let admins = IdSet::from_list(vec![user("@admin:example.org")]);
    let inviters = UserAllowList::Only(IdSet::from_list(vec![user("@friend:example.org")]));
    let service =
        VerificationService::from_config(&VerificationConfig::default(), &inviters, &admins);
    assert_eq!(service.allowed_users().len(), 2);
    assert!(service.allowed_users().contains("@friend:example.org"));
    assert!(service.allowed_users().contains("@admin:example.org"));
    assert_eq!(service.flow_timeout(), at(300));
    assert_eq!(service.grant_ttl(), at(600));

    let listed = VerificationConfig {
        allowed_users: vec!["@carol:example.org".to_owned(), "nope".to_owned()],
        ..VerificationConfig::default()
    };
    let service = VerificationService::from_config(&listed, &inviters, &admins);
    assert_eq!(service.allowed_users().len(), 2);
    assert!(service.allowed_users().contains("@carol:example.org"));

    let service = VerificationService::from_config(
        &VerificationConfig::default(),
        &UserAllowList::All,
        &admins,
    );
    assert_eq!(service.allowed_users().len(), 1);
}

#[test]
fn devices_are_verified_with_permission_only() {
    let alice = user("@alice:example.org");
    let bob = user("@bob:example.org");
    let device = "DEV".to_owned();
    let mut service = VerificationService::new(
        IdSet::from_list(vec![alice.clone()]),
        VerificationSettings::default(),
    );
    assert_eq!(service.standing_approval(), None);
    let now = at(0);
    assert_eq!(service.request_device_verification(&alice, &device, now), Ok(()));
    let refused = service.request_device_verification(&bob, &device, now);
    assert_eq!(refused, Err(DeviceRequestError::NotAllowed));
    assert_eq!(
        DeviceRequestError::NotAllowed.message(),
        "user is not allowed to verify with this bot"
    );
    assert_eq!(
        DeviceRequestError::UnknownDevice.message(),
        "device is not present in the bot's crypto store"
    );
    service.grant_device(bob.clone(), "OTHER".to_owned(), now);
    assert!(service.request_device_verification(&bob, &device, now).is_err());
    service.grant_device(bob.clone(), device.clone(), now);
    assert!(service.request_device_verification(&bob, &device, now).is_ok());
    assert!(service.request_device_verification(&bob, &device, now).is_ok());
    assert!(service.request_device_verification(&bob, &device, at(600)).is_err());
}

#[test]
fn one_user_can_be_served_alone() {
    let alice = user("@alice:example.org");
    let now = at(5);
    let mut service = service_for_user(&alice, false, now);
    assert!(service.authorize(&alice, None, ExistingTrust::Unverified, false, now));
    assert!(!service.authorize(&alice, None, ExistingTrust::Verified, false, now));
    let mut service = service_for_user(&alice, true, now);
    assert!(service.authorize(&alice, None, ExistingTrust::Verified, false, now));
    assert!(!service.authorize(&alice, None, ExistingTrust::Verified, false, now));
}

#[test]
fn trust_follows_the_identity() {
    let known = |violation: bool, verified: bool| {
        existing_trust(IdentityLookup::Known {
            violation,
            verified,
        })
    };
    assert_eq!(known(true, true), ExistingTrust::VerificationViolation);
    assert_eq!(known(true, false), ExistingTrust::VerificationViolation);
    assert_eq!(known(false, true), ExistingTrust::Verified);
    assert_eq!(known(false, false), ExistingTrust::Unverified);
    assert_eq!(
        existing_trust(IdentityLookup::Unknown),
        ExistingTrust::Unverified
    );
    assert_eq!(
        existing_trust(IdentityLookup::Failed),
        ExistingTrust::VerificationViolation
    );
    assert_eq!(trust_summary(ExistingTrust::Verified), "verified");
    assert_ne!(trust_summary(ExistingTrust::Unverified), "verified");
    assert_ne!(trust_summary(ExistingTrust::VerificationViolation), "verified");
}

#[test]
fn requests_name_their_device() {
    let dev = || "DEV".to_owned();
    for state in [
        RequestState::Requested(dev()),
        RequestState::Ready(dev()),
        RequestState::Sas(dev()),
    ] {
        assert_eq!(request_device_id(&state), Some(dev()));
        assert_eq!(flow_device(&state, Some("HINT".to_owned())), Some(dev()));
    }
    for state in [
        RequestState::Created,
        RequestState::OtherMethod,
        RequestState::Done,
        RequestState::Cancelled,
    ] {
        assert_eq!(request_device_id(&state), None);
        assert_eq!(flow_device(&state, Some(dev())), Some(dev()));
        assert_eq!(flow_device(&state, None), None);
    }
}

#[test]
fn requests_are_followed() {
    let dev = || "DEV".to_owned();
    assert_eq!(request_step(&RequestState::Sas(dev())), RequestStep::StartSas);
    assert_eq!(
        request_step(&RequestState::OtherMethod),
        RequestStep::CancelUnsupported
    );
    assert_eq!(request_step(&RequestState::Done), RequestStep::End);
    assert_eq!(request_step(&RequestState::Cancelled), RequestStep::End);
    assert_eq!(request_step(&RequestState::Created), RequestStep::Wait);
    assert_eq!(request_step(&RequestState::Requested(dev())), RequestStep::Wait);
    assert_eq!(request_step(&RequestState::Ready(dev())), RequestStep::Wait);
}

fn sas_run(events: &[SasEvent]) -> Vec<SasAction> {
    let mut phase = SasPhase::Accepting;
    let mut actions = Vec::new();
    for &event in events {
        let (next, action) = sas_step(phase, event);
        phase = next;
        actions.push(action);
    }
    actions
}

#[test]
fn approved_strings_are_confirmed_once() {
    assert_eq!(
        sas_run(&[
            SasEvent::Accepted,
            SasEvent::OtherChange,
            SasEvent::KeysExchanged,
            SasEvent::Decided(ApprovalDecision::Approve),
            SasEvent::ConfirmSent,
            SasEvent::KeysExchanged,
            SasEvent::Done,
            SasEvent::KeysExchanged,
        ]),
        vec![
            SasAction::Wait,
            SasAction::Wait,
            SasAction::Ask,
            SasAction::Confirm,
            SasAction::Wait,
            SasAction::Wait,
            SasAction::Stop,
            SasAction::Stop,
        ]
    );
}

#[test]
fn failures_and_rejections_cancel_the_sas() {
    assert_eq!(sas_run(&[SasEvent::AcceptFailed]), vec![SasAction::Cancel]);
    let asked = [SasEvent::Accepted, SasEvent::KeysExchanged];
    let rejected = [
        &asked[..],
        &[SasEvent::Decided(ApprovalDecision::Reject)][..],
    ]
    .concat();
    assert_eq!(sas_run(&rejected).last(), Some(&SasAction::Cancel));
    let failed = [
        &asked[..],
        &[
            SasEvent::Decided(ApprovalDecision::Approve),
            SasEvent::ConfirmFailed,
        ][..],
    ]
    .concat();
    assert_eq!(sas_run(&failed).last(), Some(&SasAction::Cancel));
    assert_eq!(
        sas_run(&[SasEvent::Accepted, SasEvent::Cancelled]).last(),
        Some(&SasAction::Stop)
    );
    assert_eq!(
        sas_run(&[SasEvent::Accepted, SasEvent::StreamEnded]).last(),
        Some(&SasAction::Stop)
    );
}

#[test]
fn requests_come_in_rooms_or_to_devices() {
    assert!(matches!(transport_of(None), VerificationTransport::ToDevice));
    let room = OwnedRoomId::parse("!r:x.org").unwrap();
    match transport_of(Some(room)).clone() {
        VerificationTransport::InRoom(id) => assert_eq!(id.as_str(), "!r:x.org"),
        other => panic!("unexpected {other:?}"),
    }
    assert_eq!(cancellation_timeout(), at(10));
}

#[test]
fn join_errors_are_classified_here_too() {
    assert!(is_join_terminal("M_FORBIDDEN"));
    assert!(!is_join_terminal("timeout"));
}

fn flow_run(events: &[FlowEvent]) -> Vec<FlowAction> {
    let mut phase = FlowPhase::Authorizing;
    let mut actions = Vec::new();
    for &event in events {
        let (next, action) = flow_step(phase, event);
        phase = next;
        actions.push(action);
    }
    actions
}

#[test]
fn authorized_flows_run_sas() {
    assert_eq!(
        flow_run(&[
            FlowEvent::Authorized(true),
            FlowEvent::Accepted,
            FlowEvent::Changed(RequestStep::Wait),
            FlowEvent::Changed(RequestStep::StartSas),
            FlowEvent::SasOver,
            FlowEvent::Changed(RequestStep::StartSas),
        ]),
        vec![
            FlowAction::Accept,
            FlowAction::Wait,
            FlowAction::Wait,
            FlowAction::RunSas,
            FlowAction::Stop,
            FlowAction::Stop,
        ]
    );
}

#[test]
fn other_flows_end() {
    assert_eq!(
        flow_run(&[FlowEvent::Authorized(false), FlowEvent::Accepted]),
        vec![FlowAction::Cancel, FlowAction::Stop]
    );
    assert_eq!(
        flow_run(&[FlowEvent::Authorized(true), FlowEvent::AcceptFailed]),
        vec![FlowAction::Accept, FlowAction::Cancel]
    );
    for (event, action) in [
        (
            FlowEvent::Changed(RequestStep::CancelUnsupported),
            FlowAction::Cancel,
        ),
        (FlowEvent::Changed(RequestStep::End), FlowAction::Stop),
        (FlowEvent::StreamEnded, FlowAction::Stop),
    ] {
        let actions = flow_run(&[FlowEvent::Authorized(true), FlowEvent::Accepted, event]);
        assert_eq!(actions.last(), Some(&action));
    }
}

#[test]
fn a_challenge_holds_what_both_sides_see() {
    let room = OwnedRoomId::parse("!r:x.org").unwrap();
    let emojis = vec![
        ("A".to_owned(), "Anchor".to_owned()),
        ("B".to_owned(), "Ball".to_owned()),
    ];
    let challenge = sas_challenge(
        &user("@a:x.org"),
        &"DEV".to_owned(),
        &VerificationTransport::InRoom(room),
        ExistingTrust::Verified,
        Some(emojis.clone()),
        Some((1, 2, 3)),
    );
    assert_eq!(challenge.user_id.as_str(), "@a:x.org");
    assert_eq!(challenge.device_id, "DEV");
    assert!(matches!(&challenge.transport, VerificationTransport::InRoom(id) if id.as_str() == "!r:x.org"));
    assert_eq!(challenge.existing_trust, ExistingTrust::Verified);
    assert_eq!(challenge.emojis, Some(emojis));
    assert_eq!(challenge.decimals, Some((1, 2, 3)));
    assert_eq!(challenge.clone(), challenge);
    let other = sas_challenge(
        &user("@a:x.org"),
        &"DEV".to_owned(),
        &VerificationTransport::ToDevice,
        ExistingTrust::Verified,
        None,
        None,
    );
    assert_ne!(other, challenge);
    assert_eq!(other.clone(), other);
}

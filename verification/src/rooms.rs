//! Invites, joining, and room classification.
use vstd::prelude::*;

use crate::config;
use crate::config::{ConfigError, RoomAllowList, UserAllowList};
use crate::ids;
use crate::ids::{IdSet, MatrixId, OwnedRoomId, OwnedUserId};
use crate::retry;
use crate::retry::Backoff;
use crate::text;
use crate::text::{contains, debug_string, list_contains, same};
use crate::time::Duration;

verus! {

/// The text of an optional user ID.
pub open spec fn user_text(user: Option<&OwnedUserId>) -> Option<Seq<char>> {
    match user {
        Some(user) => Some(user@),
        None => None,
    }
}

// Invites

/// Who may pull the bot into which rooms.
#[derive(Debug)]
pub struct InvitePolicy {
    pub inviters: UserAllowList,
    pub rooms: RoomAllowList,
    /// Admins may always invite the bot, and their direct chats bypass the
    /// room allow-list (their room IDs cannot be known in advance).
    pub admins: IdSet<OwnedUserId>,
}

/// What an invite policy says.
#[verifier::ext_equal]
pub struct InvitePolicyView {
    pub inviters: Option<Set<Seq<char>>>,
    pub rooms: Option<Set<Seq<char>>>,
    pub admins: Set<Seq<char>>,
}

impl View for InvitePolicy {
    type V = InvitePolicyView;

    open spec fn view(&self) -> InvitePolicyView {
        InvitePolicyView {
            inviters: self.inviters@,
            rooms: self.rooms@,
            admins: self.admins@,
        }
    }
}

impl Clone for InvitePolicy {
    fn clone(&self) -> (res: Self)
        ensures
            res@ == self@,
    {
        InvitePolicy {
            inviters: self.inviters.clone(),
            rooms: self.rooms.clone(),
            admins: self.admins.clone(),
        }
    }
}

#[derive(Clone, Copy, Debug, PartialEq, Eq, Structural)]
pub enum InviteDecision {
    Accept,
    RejectInviter,
    RejectRoom,
}

/// Whether the inviter is an admin.
pub open spec fn invited_by_admin(policy: InvitePolicyView, inviter: Option<Seq<char>>) -> bool {
    inviter is Some && policy.admins.contains(inviter->0)
}

/// Whether the inviter may invite the bot. An unknown inviter may when
/// everyone may.
pub open spec fn may_invite(policy: InvitePolicyView, inviter: Option<Seq<char>>) -> bool {
    invited_by_admin(policy, inviter) || match inviter {
        Some(user) => config::allowed(policy.inviters, user),
        None => policy.inviters is None,
    }
}

/// The answer to an invite.
pub open spec fn decision(
    policy: InvitePolicyView,
    inviter: Option<Seq<char>>,
    room: Seq<char>,
    is_direct: bool,
) -> InviteDecision {
    if invited_by_admin(policy, inviter) && is_direct {
        InviteDecision::Accept
    } else if !may_invite(policy, inviter) {
        InviteDecision::RejectInviter
    } else if !config::allowed(policy.rooms, room) {
        InviteDecision::RejectRoom
    } else {
        InviteDecision::Accept
    }
}

impl InvitePolicy {
    /// Whether to accept an invite into `room_id`.
    pub fn decide(
        &self,
        inviter: Option<&OwnedUserId>,
        room_id: &OwnedRoomId,
        is_direct: bool,
    ) -> (res: InviteDecision)
        ensures
            res == decision(self@, user_text(inviter), room_id@, is_direct),
    {
        let is_admin = match inviter {
            Some(user) => self.admins.contains(user.as_str()),
            None => false,
        };
        if is_admin && is_direct {
            return InviteDecision::Accept;
        }
        let inviter_ok = is_admin || match inviter {
            Some(user) => self.inviters.allows(user),
            None => self.inviters.is_all(),
        };
        if !inviter_ok {
            InviteDecision::RejectInviter
        } else if !self.rooms.allows(room_id) {
            InviteDecision::RejectRoom
        } else {
            InviteDecision::Accept
        }
    }
}

/// How an invite is answered.
#[derive(Debug)]
pub enum InviteAction {
    /// Join the room by way of these servers.
    Join(Vec<String>),
    /// Leave the room, which declines the invite.
    Leave(InviteDecision),
}

/// Whether `action` is the answer to the invite: joining by way of the
/// servers that know the room, or leaving for the reason found.
pub open spec fn answers_invite(
    action: InviteAction,
    policy: InvitePolicyView,
    inviter: Option<Seq<char>>,
    room: Seq<char>,
    is_direct: bool,
) -> bool {
    let decision = decision(policy, inviter, room, is_direct);
    match action {
        InviteAction::Join(via) => decision is Accept && text::views(via@) == via_of(room, inviter),
        InviteAction::Leave(reason) => decision !is Accept && reason == decision,
    }
}

/// The answer to an invite.
fn answer_invite(
    policy: &InvitePolicy,
    inviter: Option<&OwnedUserId>,
    room_id: &OwnedRoomId,
    is_direct: bool,
) -> (res: InviteAction)
    ensures
        answers_invite(res, policy@, user_text(inviter), room_id@, is_direct),
{
    match policy.decide(inviter, room_id, is_direct) {
        InviteDecision::Accept => InviteAction::Join(via_servers(room_id, inviter)),
        decision => InviteAction::Leave(decision),
    }
}

/// A membership event of a room that the bot is not in.
#[derive(Debug)]
pub struct MemberEvent {
    pub sender: OwnedUserId,
    /// The user whose membership changed.
    pub state_key: OwnedUserId,
    pub is_direct: Option<bool>,
}

/// How an invite is answered.
#[verifier::ext_equal]
pub enum InviteAnswer {
    Join(Seq<Seq<char>>),
    Leave(InviteDecision),
}

impl View for InviteAction {
    type V = InviteAnswer;

    open spec fn view(&self) -> InviteAnswer {
        match self {
            InviteAction::Join(via) => InviteAnswer::Join(text::views(via@)),
            InviteAction::Leave(reason) => InviteAnswer::Leave(*reason),
        }
    }
}

/// The answer to an invite. Where it is not known whether the chat is a direct
/// one, it counts as none.
pub open spec fn invite_answer(
    policy: InvitePolicyView,
    inviter: Option<Seq<char>>,
    room: Seq<char>,
    is_direct: Option<bool>,
) -> InviteAnswer {
    let decision = decision(policy, inviter, room, is_direct == Some(true));
    if decision is Accept {
        InviteAnswer::Join(via_of(room, inviter))
    } else {
        InviteAnswer::Leave(decision)
    }
}

/// The answer to a membership event, where it is an invite of the bot.
pub open spec fn member_answer(
    policy: InvitePolicyView,
    own_user: Option<Seq<char>>,
    room: Seq<char>,
    invited: bool,
    sender: Seq<char>,
    state_key: Seq<char>,
    is_direct: Option<bool>,
) -> Option<InviteAnswer> {
    if invited && own_user == Some(state_key) {
        Some(invite_answer(policy, Some(sender), room, is_direct))
    } else {
        None
    }
}

/// What an optional answer says.
pub open spec fn action_view(action: Option<InviteAction>) -> Option<InviteAnswer> {
    match action {
        Some(action) => Some(action@),
        None => None,
    }
}

/// Auto-join invites allowed by `policy`; reject the rest. Events about
/// others, and about rooms that the bot is not invited to, are passed over.
pub fn on_member_event(
    policy: &InvitePolicy,
    own_user: Option<&OwnedUserId>,
    room_id: &OwnedRoomId,
    invited: bool,
    event: &MemberEvent,
) -> (res: Option<InviteAction>)
    ensures
        res is Some <==> invited && user_text(own_user) == Some(event.state_key@),
        action_view(res) == member_answer(
            policy@,
            user_text(own_user),
            room_id@,
            invited,
            event.sender@,
            event.state_key@,
            event.is_direct,
        ),
        res matches Some(action) ==> answers_invite(
            action,
            policy@,
            Some(event.sender@),
            room_id@,
            event.is_direct == Some(true),
        ),
{
    let own = match own_user {
        Some(user) => same(user.as_str(), event.state_key.as_str()),
        None => false,
    };
    if !own || !invited {
        return None;
    }
    let is_direct = match event.is_direct {
        Some(direct) => direct,
        None => false,
    };
    Some(answer_invite(policy, Some(&event.sender), room_id, is_direct))
}

/// Process an invite that arrived while the bot was offline. The inviter may
/// be unknown, and `is_direct` is `None` where it could not be found out.
pub fn on_pending_invite(
    policy: &InvitePolicy,
    inviter: Option<&OwnedUserId>,
    room_id: &OwnedRoomId,
    is_direct: Option<bool>,
) -> (res: InviteAction)
    ensures
        answers_invite(res, policy@, user_text(inviter), room_id@, is_direct == Some(true)),
        res@ == invite_answer(policy@, user_text(inviter), room_id@, is_direct),
{
    let is_direct = match is_direct {
        Some(direct) => direct,
        None => false,
    };
    answer_invite(policy, inviter, room_id, is_direct)
}

// Joining

/// How often joining is tried.
pub const JOIN_MAX_ATTEMPTS: u32 = 8;

/// Whether a join error will not resolve with a retry.
pub open spec fn is_terminal(message: Seq<char>) -> bool {
    ||| text::occurs_in(message, "No known servers"@)
    ||| text::occurs_in(message, "M_FORBIDDEN"@)
    ||| text::occurs_in(message, "M_UNKNOWN_TOKEN"@)
    ||| text::occurs_in(message, "M_GUEST_ACCESS_FORBIDDEN"@)
}

/// Returns true for Matrix join errors that will not resolve with a retry.
/// `message` is the error as text.
pub fn is_join_terminal(message: &str) -> (res: bool)
    ensures
        res == is_terminal(message@),
{
    contains(message, "No known servers") || contains(message, "M_FORBIDDEN") || contains(
        message,
        "M_UNKNOWN_TOKEN",
    ) || contains(message, "M_GUEST_ACCESS_FORBIDDEN")
}

/// The servers to join a room by: the inviter's, then the room ID's own,
/// each once.
pub open spec fn via_of(room: Seq<char>, inviter: Option<Seq<char>>) -> Seq<Seq<char>> {
    let first = match inviter {
        Some(user) => seq![ids::after_colon(user)],
        None => Seq::<Seq<char>>::empty(),
    };
    match ids::room_server(room) {
        Some(server) if !first.contains(server) => first.push(server),
        _ => first,
    }
}

/// Via servers for joining: the inviter's server always knows the room;
/// the room ID's own server covers non-federated rooms. Without them
/// matrix.org answers 404 "No known servers".
pub fn via_servers(room_id: &OwnedRoomId, inviter: Option<&OwnedUserId>) -> (res: Vec<String>)
    ensures
        text::views(res@) == via_of(room_id@, user_text(inviter)),
{
    let mut via: Vec<String> = Vec::new();
    if let Some(user) = inviter {
        via.push(user.server_name());
        assert(text::views(via@) =~= seq![ids::after_colon(user@)]);
    } else {
        assert(text::views(via@) =~= Seq::<Seq<char>>::empty());
    }
    if let Some(server) = room_id.server_name() {
        if !list_contains(&via, server.as_str()) {
            let ghost before = text::views(via@);
            via.push(server);
            assert(text::views(via@) =~= before.push(server@));
        }
    }
    via
}

/// What came of an attempt to join a room.
#[derive(Debug)]
pub enum JoinEvent {
    Joined,
    /// The attempt failed, with this error.
    Failed(String),
}

/// What to do after an attempt to join a room.
#[derive(Clone, Copy, Debug, PartialEq, Eq)]
pub enum JoinStep {
    Joined,
    GiveUp,
    /// Try again after this delay.
    RetryIn(Duration),
}

/// Joining a room, retrying transient failures with exponential backoff.
#[derive(Debug)]
pub struct JoinRetry {
    attempt: u32,
    backoff: Backoff,
}

/// The delay, in nanoseconds, after the `n`-th failed attempt: two seconds,
/// doubled with each attempt, and at most five minutes.
pub open spec fn join_delay(n: nat) -> nat
    recommends
        n >= 1,
{
    retry::advanced_times(
        retry::fresh(2_000_000_000, 300_000_000_000),
        (n - 1) as nat,
    ).current
}

/// What an attempt to join leads to.
#[verifier::ext_equal]
pub enum JoinOutcome {
    Joined,
    GiveUp,
    /// After this delay, in nanoseconds, the attempt of this number.
    Retry { delay: nat, attempt: nat },
}

/// What the attempt of a number leads to, given the error with which it
/// failed, if it failed.
pub open spec fn after_attempt(attempt: nat, failure: Option<Seq<char>>) -> JoinOutcome {
    match failure {
        None => JoinOutcome::Joined,
        Some(message) => if is_terminal(message) || attempt == JOIN_MAX_ATTEMPTS {
            JoinOutcome::GiveUp
        } else {
            JoinOutcome::Retry { delay: join_delay(attempt), attempt: attempt + 1 }
        },
    }
}

/// The error with which an attempt failed.
pub open spec fn failure_of(event: JoinEvent) -> Option<Seq<char>> {
    match event {
        JoinEvent::Joined => None,
        JoinEvent::Failed(message) => Some(message@),
    }
}

/// Whether a step and the next attempt are what an attempt leads to.
pub open spec fn is_outcome(step: JoinStep, next: Option<JoinRetry>, outcome: JoinOutcome) -> bool {
    match outcome {
        JoinOutcome::Joined => step is Joined && next is None,
        JoinOutcome::GiveUp => step is GiveUp && next is None,
        JoinOutcome::Retry { delay, attempt } => {
            &&& step matches JoinStep::RetryIn(span)
            &&& span@ == delay
            &&& next matches Some(retry)
            &&& retry@ == attempt
        },
    }
}

impl View for JoinRetry {
    /// The number of the current attempt, from one.
    type V = nat;

    closed spec fn view(&self) -> nat {
        self.attempt as nat
    }
}

impl JoinRetry {
    #[verifier::type_invariant]
    spec fn in_step(self) -> bool {
        &&& 1 <= self.attempt <= JOIN_MAX_ATTEMPTS
        &&& self.backoff@ == retry::advanced_times(
            retry::fresh(2_000_000_000, 300_000_000_000),
            (self.attempt - 1) as nat,
        )
    }

    /// Before the first attempt.
    pub fn new() -> (res: Self)
        ensures
            res@ == 1,
    {
        JoinRetry {
            attempt: 1,
            backoff: Backoff::new(Duration::from_secs(2), Duration::from_secs(300)),
        }
    }

    /// The number of the current attempt, from one.
    pub fn attempt(&self) -> (res: u32)
        ensures
            res == self@,
            1 <= res <= JOIN_MAX_ATTEMPTS,
    {
        proof {
            use_type_invariant(self);
        }
        self.attempt
    }

    /// What to do after the current attempt.
    pub fn on_event(self, event: &JoinEvent) -> (res: (JoinStep, Option<JoinRetry>))
        ensures
            1 <= self@ <= JOIN_MAX_ATTEMPTS,
            is_outcome(res.0, res.1, after_attempt(self@, failure_of(*event))),
            match event {
                JoinEvent::Joined => res.0 is Joined && res.1 is None,
                JoinEvent::Failed(message) => if is_terminal(message@) || self@
                    == JOIN_MAX_ATTEMPTS {
                    res.0 is GiveUp && res.1 is None
                } else {
                    &&& res.0 matches JoinStep::RetryIn(delay)
                    &&& delay@ == join_delay(self@)
                    &&& res.1 matches Some(next)
                    &&& next@ == self@ + 1
                },
            },
    {
        proof {
            use_type_invariant(&self);
        }
        match event {
            JoinEvent::Joined => (JoinStep::Joined, None),
            JoinEvent::Failed(message) => {
                if is_join_terminal(message.as_str()) || self.attempt == JOIN_MAX_ATTEMPTS {
                    return (JoinStep::GiveUp, None);
                }
                proof {
                    retry::law_delays_double_up_to_the_ceiling(
                        2_000_000_000,
                        300_000_000_000,
                        (self.attempt - 1) as nat,
                    );
                }
                let attempt = self.attempt;
                let mut backoff = self.backoff;
                let delay = backoff.next_delay();
                (JoinStep::RetryIn(delay), Some(JoinRetry { attempt: attempt + 1, backoff }))
            },
        }
    }
}

// Room classification

/// What is known of a room.
#[derive(Debug)]
pub struct RoomInfo {
    pub room_id: OwnedRoomId,
    /// Whether the bot is a member.
    pub joined: bool,
    /// The bot itself.
    pub own_user: OwnedUserId,
    /// Who is joined or invited.
    pub active_members: Vec<OwnedUserId>,
    /// Whom the bot's own `m.direct` account data names for the room, each
    /// once. `None` stands for one that is no user ID.
    pub direct_targets: Vec<Option<OwnedUserId>>,
    /// Whether the room is end-to-end encrypted.
    pub encrypted: bool,
}

/// What is known of a room.
#[verifier::ext_equal]
pub struct RoomView {
    pub room_id: Seq<char>,
    pub joined: bool,
    pub own_user: Seq<char>,
    pub active_members: Seq<Seq<char>>,
    pub direct_targets: Seq<Option<Seq<char>>>,
    pub encrypted: bool,
}

impl View for RoomInfo {
    type V = RoomView;

    open spec fn view(&self) -> RoomView {
        RoomView {
            room_id: self.room_id@,
            joined: self.joined,
            own_user: self.own_user@,
            active_members: ids::id_texts(self.active_members@),
            direct_targets: Seq::new(
                self.direct_targets@.len(),
                |i: int|
                    match self.direct_targets@[i] {
                        Some(user) => Some(user@),
                        None => None,
                    },
            ),
            encrypted: self.encrypted,
        }
    }
}

/// What is known of the rooms of a list.
pub open spec fn room_views(rooms: Seq<RoomInfo>) -> Seq<RoomView> {
    Seq::new(rooms.len(), |i: int| rooms[i]@)
}

/// Whether nobody but the bot and `user` is joined or invited.
pub open spec fn alone_with(room: RoomView, user: Seq<char>) -> bool {
    forall|i: int|
        0 <= i < room.active_members.len() ==> #[trigger] room.active_members[i] == room.own_user
            || room.active_members[i] == user
}

/// The admin whose direct chat with the bot the room is, if it is one.
pub open spec fn dm_partner(room: RoomView, admins: Set<Seq<char>>) -> Option<Seq<char>> {
    if room.joined && room.direct_targets.len() == 1 {
        match room.direct_targets[0] {
            Some(user) if admins.contains(user) && alone_with(room, user) => Some(user),
            _ => None,
        }
    } else {
        None
    }
}

/// Whether nobody but the bot and `user` is joined or invited.
fn is_alone_with(room: &RoomInfo, user: &OwnedUserId) -> (res: bool)
    ensures
        res == alone_with(room@, user@),
{
    let mut i: usize = 0;
    while i < room.active_members.len()
        invariant
            i <= room.active_members@.len(),
            forall|k: int|
                0 <= k < i ==> #[trigger] room@.active_members[k] == room@.own_user
                    || room@.active_members[k] == user@,
        decreases room.active_members@.len() - i,
    {
        let member = room.active_members[i].as_str();
        if !same(member, room.own_user.as_str()) && !same(member, user.as_str()) {
            assert(room@.active_members[i as int] == member@);
            return false;
        }
        i += 1;
    }
    true
}

/// If `room` is a direct chat between the bot and exactly one of `admins`,
/// returns that admin.
///
/// Uses the bot's own `m.direct` account data (which only the bot can
/// write) and requires that nobody else is joined or invited.
pub fn admin_dm_partner(room: &RoomInfo, admins: &IdSet<OwnedUserId>) -> (res: Option<OwnedUserId>)
    ensures
        match res {
            Some(user) => dm_partner(room@, admins@) == Some(user@),
            None => dm_partner(room@, admins@) is None,
        },
{
    if !room.joined || room.direct_targets.len() != 1 {
        return None;
    }
    assert(room@.direct_targets[0] == match room.direct_targets@[0] {
        Some(user) => Some(user@),
        None => None,
    });
    match &room.direct_targets[0] {
        Some(user) => {
            if admins.contains(user.as_str()) && is_alone_with(room, user) {
                Some(user.clone())
            } else {
                None
            }
        },
        None => None,
    }
}

/// Whether a room receives the bot's broadcast posts.
pub open spec fn receives_broadcasts(
    room: RoomView,
    rooms: Option<Set<Seq<char>>>,
    admins: Set<Seq<char>>,
    include_admin_dms: bool,
) -> bool {
    config::allowed(rooms, room.room_id) && (include_admin_dms || dm_partner(room, admins) is None)
}

/// The IDs of the rooms that receive the bot's broadcast posts, in order.
pub open spec fn broadcast_ids(
    list: Seq<RoomView>,
    rooms: Option<Set<Seq<char>>>,
    admins: Set<Seq<char>>,
    include_admin_dms: bool,
) -> Seq<Seq<char>>
    decreases list.len(),
{
    if list.len() == 0 {
        seq![]
    } else {
        let before = broadcast_ids(list.drop_last(), rooms, admins, include_admin_dms);
        if receives_broadcasts(list.last(), rooms, admins, include_admin_dms) {
            before.push(list.last().room_id)
        } else {
            before
        }
    }
}

/// Joined rooms that should receive the bot's broadcast posts: those allowed
/// by `rooms`, minus admin direct chats unless `include_admin_dms`.
#[verifier::loop_isolation(false)]
pub fn broadcast_rooms(
    joined: &Vec<RoomInfo>,
    rooms: &RoomAllowList,
    admins: &IdSet<OwnedUserId>,
    include_admin_dms: bool,
) -> (res: Vec<OwnedRoomId>)
    ensures
        ids::id_texts(res@) == broadcast_ids(
            room_views(joined@),
            rooms@,
            admins@,
            include_admin_dms,
        ),
{
    let ghost all = room_views(joined@);
    let mut res: Vec<OwnedRoomId> = Vec::new();
    let mut i: usize = 0;
    assert(ids::id_texts(res@) =~= Seq::<Seq<char>>::empty());
    while i < joined.len()
        invariant
            i <= joined@.len(),
            ids::id_texts(res@) == broadcast_ids(
                all.take(i as int),
                rooms@,
                admins@,
                include_admin_dms,
            ),
        decreases joined@.len() - i,
    {
        let room = &joined[i];
        assert(all.take(i + 1).drop_last() =~= all.take(i as int));
        assert(all.take(i + 1).last() == room@);
        if rooms.allows(&room.room_id) && (include_admin_dms || admin_dm_partner(
            room,
            admins,
        ).is_none()) {
            let ghost before = ids::id_texts(res@);
            res.push(room.room_id.clone());
            assert(ids::id_texts(res@) =~= before.push(room@.room_id));
        }
        i += 1;
    }
    assert(all.take(i as int) =~= all);
    res
}

/// The complaint about a configured room ID.
pub open spec fn room_error(field: Seq<char>, value: Seq<char>, error: Seq<char>) -> Seq<char> {
    "Invalid room ID in "@ + field + ": "@ + text::debug_text(value) + " ("@ + error + ")"@
}

/// Parse a configured room ID with a helpful error.
pub fn parse_room_id(field: &str, value: &str) -> (res: Result<OwnedRoomId, ConfigError>)
    ensures
        match res {
            Ok(room_id) => ids::room_id_error(value@) is None && room_id@ == value@,
            Err(error) => {
                &&& ids::room_id_error(value@) matches Some(cause)
                &&& error.message@ == room_error(field@, value@, cause)
                &&& error.cause is None
            },
        },
{
    match OwnedRoomId::parse(value) {
        Ok(room_id) => Ok(room_id),
        Err(error) => {
            let mut message = "Invalid room ID in ".to_owned();
            message.push_str(field);
            message.push_str(": ");
            message.push_str(debug_string(value).as_str());
            message.push_str(" (");
            message.push_str(error.message.as_str());
            message.push_str(")");
            Err(ConfigError { message, cause: None })
        },
    }
}

// Laws

/// Admins may always open a direct chat with the bot, whatever the
/// allow-lists say.
pub proof fn law_admin_direct_chats_are_accepted(
    policy: InvitePolicyView,
    admin: Seq<char>,
    room: Seq<char>,
)
    requires
        policy.admins.contains(admin),
    ensures
        decision(policy, Some(admin), room, true) is Accept,
{
}

/// A room is an admin's direct chat if and only if the bot is in it, its
/// direct-chat data names that admin alone, and nobody else is joined or
/// invited.
pub proof fn law_admin_chats_have_no_other_members(
    room: RoomView,
    admins: Set<Seq<char>>,
    user: Seq<char>,
)
    ensures
        dm_partner(room, admins) == Some(user) <==> {
            &&& room.joined
            &&& room.direct_targets == seq![Some(user)]
            &&& admins.contains(user)
            &&& forall|member: Seq<char>| #[trigger]
                room.active_members.contains(member) ==> member == room.own_user || member == user
        },
{
    if room.direct_targets.len() == 1 && room.direct_targets[0] == Some(user) {
        assert(room.direct_targets =~= seq![Some(user)]);
    }
    if alone_with(room, user) {
        assert forall|member: Seq<char>| #[trigger]
            room.active_members.contains(member) implies member == room.own_user || member
            == user by {
            let k = choose|k: int|
                0 <= k < room.active_members.len() && room.active_members[k] == member;
            assert(room.active_members[k] == member);
        }
    } else {
        let k = choose|k: int|
            0 <= k < room.active_members.len() && !(#[trigger] room.active_members[k]
                == room.own_user || room.active_members[k] == user);
        assert(room.active_members.contains(room.active_members[k]));
    }
}

/// An accepted invite is an admin's direct chat, or one that both
/// allow-lists allow.
pub proof fn law_accepted_invites_are_allowed(
    policy: InvitePolicyView,
    inviter: Option<Seq<char>>,
    room: Seq<char>,
    is_direct: bool,
)
    requires
        decision(policy, inviter, room, is_direct) is Accept,
    ensures
        (is_direct && invited_by_admin(policy, inviter)) || (may_invite(policy, inviter)
            && config::allowed(policy.rooms, room)),
{
}

/// An unknown inviter is only accepted when everyone may invite.
pub proof fn law_unknown_inviters_need_an_open_list(
    policy: InvitePolicyView,
    room: Seq<char>,
    is_direct: bool,
)
    requires
        policy.inviters is Some,
    ensures
        decision(policy, None, room, is_direct) is RejectInviter,
{
}

/// The servers to join by are never listed twice.
pub proof fn law_via_servers_are_distinct(room: Seq<char>, inviter: Option<Seq<char>>)
    ensures
        via_of(room, inviter).no_duplicates(),
        via_of(room, inviter).len() <= 2,
{
    let first = match inviter {
        Some(user) => seq![ids::after_colon(user)],
        None => Seq::<Seq<char>>::empty(),
    };
    assert(first.len() == 1 ==> first.contains(first[0]));
    if let Some(server) = ids::room_server(room) {
        if !first.contains(server) {
            assert forall|i: int, j: int|
                0 <= i < j < first.push(server).len() implies first.push(server)[i] != first.push(
                server,
            )[j] by {
                assert(first.contains(first[i]));
            }
        }
    }
}

/// The delay between two attempts to join is two seconds, doubled with each
/// attempt, and never more than five minutes.
pub proof fn law_join_delays(n: nat)
    requires
        1 <= n,
    ensures
        join_delay(n) == (if 2_000_000_000 * vstd::arithmetic::power2::pow2((n - 1) as nat)
            <= 300_000_000_000nat {
            2_000_000_000 * vstd::arithmetic::power2::pow2((n - 1) as nat)
        } else {
            300_000_000_000nat
        }),
{
    retry::law_delays_double_up_to_the_ceiling(2_000_000_000, 300_000_000_000, (n - 1) as nat);
    vstd::arithmetic::power2::lemma2_to64();
}

/// The rooms that broadcasts go to are the listed rooms that the allow-list
/// allows and, unless these are included, that are no admin direct chats.
pub proof fn law_broadcasts_reach_exactly_the_allowed_rooms(
    list: Seq<RoomView>,
    rooms: Option<Set<Seq<char>>>,
    admins: Set<Seq<char>>,
    include_admin_dms: bool,
    id: Seq<char>,
)
    ensures
        broadcast_ids(list, rooms, admins, include_admin_dms).contains(id) <==> exists|i: int|
            0 <= i < list.len() && (#[trigger] list[i]).room_id == id && config::allowed(rooms, id)
                && (include_admin_dms || dm_partner(list[i], admins) is None),
    decreases list.len(),
{
    if list.len() > 0 {
        let shorter = list.drop_last();
        let before = broadcast_ids(shorter, rooms, admins, include_admin_dms);
        let after = broadcast_ids(list, rooms, admins, include_admin_dms);
        law_broadcasts_reach_exactly_the_allowed_rooms(
            shorter,
            rooms,
            admins,
            include_admin_dms,
            id,
        );
        let last = list.len() - 1;
        assert(list[last] == list.last());
        if before.contains(id) {
            let k = choose|k: int| 0 <= k < before.len() && before[k] == id;
            assert(after[k] == id);
            let i = choose|i: int|
                0 <= i < shorter.len() && (#[trigger] shorter[i]).room_id == id && config::allowed(
                    rooms,
                    id,
                ) && (include_admin_dms || dm_partner(shorter[i], admins) is None);
            assert(list[i] == shorter[i]);
        }
        if receives_broadcasts(list.last(), rooms, admins, include_admin_dms) {
            assert(after[before.len() as int] == list.last().room_id);
        }
        if exists|i: int|
            0 <= i < list.len() && (#[trigger] list[i]).room_id == id && config::allowed(rooms, id)
                && (include_admin_dms || dm_partner(list[i], admins) is None) {
            let i = choose|i: int|
                0 <= i < list.len() && (#[trigger] list[i]).room_id == id && config::allowed(
                    rooms,
                    id,
                ) && (include_admin_dms || dm_partner(list[i], admins) is None);
            if i < last {
                assert(shorter[i] == list[i]);
            }
        }
    }
}

/// An invite is accepted if and only if an admin opens a direct chat, or the
/// inviter is an admin or on the list of inviters and the room is on the list
/// of rooms. A list that is left out allows everything; where the inviter is
/// unknown, only that will do.
pub proof fn law_allowed_invites_are_accepted(
    policy: InvitePolicyView,
    inviter: Option<Seq<char>>,
    room: Seq<char>,
    is_direct: bool,
)
    ensures
        ({
            let by_admin = exists|user: Seq<char>|
                inviter == Some(user) && #[trigger] policy.admins.contains(user);
            let inviter_ok = by_admin || policy.inviters is None || exists|user: Seq<char>|
                inviter == Some(user) && #[trigger] (policy.inviters->0).contains(user);
            let room_ok = policy.rooms is None || (policy.rooms->0).contains(room);
            &&& by_admin && is_direct ==> decision(policy, inviter, room, is_direct) is Accept
            &&& inviter_ok && room_ok ==> decision(policy, inviter, room, is_direct) is Accept
            &&& !inviter_ok ==> decision(policy, inviter, room, is_direct) is RejectInviter
            &&& inviter_ok && !room_ok && !(by_admin && is_direct) ==> decision(
                policy,
                inviter,
                room,
                is_direct,
            ) is RejectRoom
        }),
{
    if let Some(user) = inviter {
        assert(policy.admins.contains(user) || !policy.admins.contains(user));
        if let Some(users) = policy.inviters {
            assert(users.contains(user) || !users.contains(user));
        }
    }
}

/// Whoever may invite the bot into a room may still do so when a list is made
/// longer or left out, or when they become an admin.
pub proof fn law_longer_lists_accept_more(
    policy: InvitePolicyView,
    wider: InvitePolicyView,
    inviter: Option<Seq<char>>,
    room: Seq<char>,
    is_direct: bool,
)
    requires
        decision(policy, inviter, room, is_direct) is Accept,
        policy.admins.subset_of(wider.admins),
        wider.inviters is None || (policy.inviters is Some && (policy.inviters->0).subset_of(
            wider.inviters->0,
        )),
        wider.rooms is None || (policy.rooms is Some && (policy.rooms->0).subset_of(
            wider.rooms->0,
        )),
    ensures
        decision(wider, inviter, room, is_direct) is Accept,
{
}

/// An accepted invite is answered by joining, a rejected one by leaving for
/// the reason found.
pub proof fn law_invites_are_answered_as_decided(
    action: InviteAction,
    policy: InvitePolicyView,
    inviter: Option<Seq<char>>,
    room: Seq<char>,
    is_direct: bool,
)
    requires
        answers_invite(action, policy, inviter, room, is_direct),
    ensures
        action is Join <==> decision(policy, inviter, room, is_direct) is Accept,
        action matches InviteAction::Leave(reason) ==> reason == decision(
            policy,
            inviter,
            room,
            is_direct,
        ),
        action matches InviteAction::Join(via) ==> {
            &&& inviter matches Some(user) ==> via@.len() > 0 && text::views(via@)[0]
                == ids::after_colon(user)
            &&& ids::room_server(room) matches Some(server) ==> text::views(via@).contains(server)
        },
{
    law_via_servers_are_the_inviters_and_the_rooms(room, inviter);
}

/// A room is joined by way of the inviter's server first, and of the server
/// that the room ID names; no other server is asked.
pub proof fn law_via_servers_are_the_inviters_and_the_rooms(
    room: Seq<char>,
    inviter: Option<Seq<char>>,
)
    ensures
        inviter matches Some(user) ==> via_of(room, inviter).len() > 0 && via_of(room, inviter)[0]
            == ids::after_colon(user),
        forall|server: Seq<char>| #[trigger]
            via_of(room, inviter).contains(server) <==> (inviter is Some && server
                == ids::after_colon(inviter->0)) || ids::room_server(room) == Some(server),
{
    let first = match inviter {
        Some(user) => seq![ids::after_colon(user)],
        None => Seq::<Seq<char>>::empty(),
    };
    let via = via_of(room, inviter);
    assert(first.len() == 1 ==> first.contains(first[0]) && via[0] == first[0]);
    assert forall|server: Seq<char>| #[trigger] via.contains(server) <==> (inviter is Some
        && server == ids::after_colon(inviter->0)) || ids::room_server(room) == Some(server) by {
        if inviter is Some && server == ids::after_colon(inviter->0) {
            assert(via[0] == server);
        }
        if ids::room_server(room) == Some(server) && !first.contains(server) {
            assert(via[first.len() as int] == server);
        }
        if ids::room_server(room) == Some(server) && first.contains(server) {
            assert(via == first);
        }
    }
}

/// A join error is final if and only if it names one of the four errors that
/// no retry resolves, anywhere in its text.
pub proof fn law_terminal_join_errors(before: Seq<char>, after: Seq<char>, message: Seq<char>)
    ensures
        is_terminal(before + "No known servers"@ + after),
        is_terminal(before + "M_FORBIDDEN"@ + after),
        is_terminal(before + "M_UNKNOWN_TOKEN"@ + after),
        is_terminal(before + "M_GUEST_ACCESS_FORBIDDEN"@ + after),
        is_terminal(message) ==> exists|b: Seq<char>, a: Seq<char>|
            #![trigger b + "M_FORBIDDEN"@ + a]
            message == b + "No known servers"@ + a || message == b + "M_FORBIDDEN"@ + a || message
                == b + "M_UNKNOWN_TOKEN"@ + a || message == b + "M_GUEST_ACCESS_FORBIDDEN"@ + a,
{
    text::lemma_occurs_between(before, "No known servers"@, after);
    text::lemma_occurs_between(before, "M_FORBIDDEN"@, after);
    text::lemma_occurs_between(before, "M_UNKNOWN_TOKEN"@, after);
    text::lemma_occurs_between(before, "M_GUEST_ACCESS_FORBIDDEN"@, after);
    if is_terminal(message) {
        let pattern = if text::occurs_in(message, "No known servers"@) {
            "No known servers"@
        } else if text::occurs_in(message, "M_FORBIDDEN"@) {
            "M_FORBIDDEN"@
        } else if text::occurs_in(message, "M_UNKNOWN_TOKEN"@) {
            "M_UNKNOWN_TOKEN"@
        } else {
            "M_GUEST_ACCESS_FORBIDDEN"@
        };
        let at = choose|at: int| text::occurs_at(message, pattern, at);
        let b = message.take(at);
        let a = message.skip(at + pattern.len());
        assert(message =~= b + pattern + a);
        let marked = b + "M_FORBIDDEN"@ + a;
    }
}

/// Whether a room receives broadcasts depends on nothing but whether it is on
/// the list of rooms and whether it is an admin's direct chat: shared rooms on
/// the list always do, and admin chats on it do where they are included.
pub proof fn law_allowed_rooms_receive_broadcasts(
    room: RoomView,
    rooms: Option<Set<Seq<char>>>,
    admins: Set<Seq<char>>,
    include_admin_dms: bool,
)
    ensures
        rooms is Some && !(rooms->0).contains(room.room_id) ==> !receives_broadcasts(
            room,
            rooms,
            admins,
            include_admin_dms,
        ),
        rooms is None || (rooms->0).contains(room.room_id) ==> {
            &&& receives_broadcasts(room, rooms, admins, true)
            &&& room.direct_targets.len() != 1 ==> receives_broadcasts(
                room,
                rooms,
                admins,
                include_admin_dms,
            )
            &&& receives_broadcasts(room, rooms, admins, false) <==> !(exists|user: Seq<char>|
                admins.contains(user) && #[trigger] dm_partner(room, admins) == Some(user))
        },
{
}

/// Only invites of the bot itself are answered; they are answered as the
/// invites that were waiting are, with the sender as the inviter. Where it is
/// not said whether the chat is a direct one, it counts as none.
pub proof fn law_only_own_invites_are_answered(
    policy: InvitePolicyView,
    own_user: Option<Seq<char>>,
    room: Seq<char>,
    invited: bool,
    sender: Seq<char>,
    state_key: Seq<char>,
    is_direct: Option<bool>,
)
    ensures
        ({
            let answer = member_answer(
                policy,
                own_user,
                room,
                invited,
                sender,
                state_key,
                is_direct,
            );
            &&& !invited ==> answer is None
            &&& own_user is None ==> answer is None
            &&& own_user is Some && own_user->0 != state_key ==> answer is None
            &&& invited && own_user == Some(state_key) ==> answer == Some(
                invite_answer(policy, Some(sender), room, is_direct),
            )
            &&& invite_answer(policy, Some(sender), room, None) == invite_answer(
                policy,
                Some(sender),
                room,
                Some(false),
            )
        }),
{
}

/// An invite is answered by joining if and only if an admin opened a direct
/// chat, or the lists allow the inviter and the room. The servers to join by
/// are the inviter's and the room's; a declined invite names the reason.
pub proof fn law_allowed_invites_are_joined(
    policy: InvitePolicyView,
    user: Seq<char>,
    room: Seq<char>,
    is_direct: Option<bool>,
)
    ensures
        ({
            let answer = invite_answer(policy, Some(user), room, is_direct);
            let inviter_ok = policy.admins.contains(user) || policy.inviters is None || (
            policy.inviters->0).contains(user);
            let room_ok = policy.rooms is None || (policy.rooms->0).contains(room);
            let admin_chat = policy.admins.contains(user) && is_direct == Some(true);
            &&& admin_chat || (inviter_ok && room_ok) <==> answer is Join
            &&& answer matches InviteAnswer::Join(via) ==> via == via_of(room, Some(user))
            &&& !inviter_ok ==> answer == InviteAnswer::Leave(InviteDecision::RejectInviter)
            &&& inviter_ok && !room_ok && !admin_chat ==> answer == InviteAnswer::Leave(
                InviteDecision::RejectRoom,
            )
        }),
{
}

/// Joining is tried up to eight times: an error that a retry may resolve is
/// followed by the next attempt, after two seconds that double each time; one
/// that no retry resolves, and the eighth, end it. Success ends it at once.
pub proof fn law_joining_is_retried(n: nat, message: Seq<char>)
    requires
        1 <= n <= 8,
    ensures
        after_attempt(n, None) is Joined,
        n <= 7 && !is_terminal(message) ==> after_attempt(n, Some(message)) == (
        JoinOutcome::Retry {
            delay: 1_000_000_000 * vstd::arithmetic::power2::pow2(n),
            attempt: n + 1,
        }),
        n == 8 || is_terminal(message) ==> after_attempt(n, Some(message)) is GiveUp,
{
    law_join_delays(n);
    vstd::arithmetic::power2::lemma2_to64();
}

/// The rooms that broadcasts go to keep their order, and each is named as
/// often as it is listed.
pub proof fn law_broadcasts_keep_the_order(
    list: Seq<RoomView>,
    room: RoomView,
    rooms: Option<Set<Seq<char>>>,
    admins: Set<Seq<char>>,
    include_admin_dms: bool,
)
    ensures
        broadcast_ids(Seq::empty(), rooms, admins, include_admin_dms) == Seq::<Seq<char>>::empty(),
        ({
            let before = broadcast_ids(list, rooms, admins, include_admin_dms);
            let after = broadcast_ids(list.push(room), rooms, admins, include_admin_dms);
            let allowed = rooms is None || (rooms->0).contains(room.room_id);
            &&& allowed && (include_admin_dms || dm_partner(room, admins) is None) ==> after
                == before.push(room.room_id)
            &&& !(allowed && (include_admin_dms || dm_partner(room, admins) is None)) ==> after
                == before
        }),
{
    assert(list.push(room).drop_last() =~= list);
}

/// An invite whose sender is unknown is answered by joining if and only if
/// everyone may invite the bot and the room is allowed.
pub proof fn law_invites_of_unknown_senders(
    policy: InvitePolicyView,
    room: Seq<char>,
    is_direct: Option<bool>,
)
    ensures
        ({
            let answer = invite_answer(policy, None, room, is_direct);
            let room_ok = policy.rooms is None || (policy.rooms->0).contains(room);
            &&& answer is Join <==> policy.inviters is None && room_ok
            &&& answer matches InviteAnswer::Join(via) ==> via == via_of(room, None)
            &&& policy.inviters is Some ==> answer == InviteAnswer::Leave(
                InviteDecision::RejectInviter,
            )
            &&& policy.inviters is None && !room_ok ==> answer == InviteAnswer::Leave(
                InviteDecision::RejectRoom,
            )
        }),
{
}

/// What is known of a room, of an invite policy and of an inviter is all of
/// it, as it is.
pub proof fn law_rooms_are_seen_as_they_are(
    room: RoomInfo,
    policy: InvitePolicy,
    user: &OwnedUserId,
    i: int,
    list: Seq<RoomInfo>,
)
    ensures
        room@.room_id == room.room_id@,
        room@.joined == room.joined,
        room@.own_user == room.own_user@,
        room@.encrypted == room.encrypted,
        room@.active_members.len() == room.active_members@.len(),
        0 <= i < room.active_members@.len() ==> room@.active_members[i]
            == room.active_members@[i]@,
        room@.direct_targets.len() == room.direct_targets@.len(),
        0 <= i < room.direct_targets@.len() ==> {
            &&& room@.direct_targets[i] is Some <==> room.direct_targets@[i] is Some
            &&& room.direct_targets@[i] is Some ==> room@.direct_targets[i]->0 == (
            room.direct_targets@[i]->0)@
        },
        policy@.inviters == policy.inviters@,
        policy@.rooms == policy.rooms@,
        policy@.admins == policy.admins@,
        user_text(Some(user)) == Some(user@),
        user_text(None) is None,
        room_views(list).len() == list.len(),
        0 <= i < list.len() ==> room_views(list)[i] == list[i]@,
{
}

/// What an answer to an invite and a step of joining say is what they are.
pub proof fn law_answers_are_seen_as_they_are(
    action: InviteAction,
    event: JoinEvent,
    step: JoinStep,
    next: Option<JoinRetry>,
    outcome: JoinOutcome,
)
    ensures
        action_view(Some(action)) == Some(action@),
        action_view(None) is None,
        action is Join <==> action@ is Join,
        action matches InviteAction::Join(via) ==> action@ == InviteAnswer::Join(
            text::views(via@),
        ),
        action matches InviteAction::Leave(reason) ==> action@ == InviteAnswer::Leave(reason),
        failure_of(event) is None <==> event is Joined,
        event matches JoinEvent::Failed(message) ==> failure_of(event) == Some(message@),
        is_outcome(step, next, outcome) ==> {
            &&& step is Joined <==> outcome is Joined
            &&& step is GiveUp <==> outcome is GiveUp
            &&& next is Some <==> outcome is Retry
            &&& outcome is Retry ==> step is RetryIn && (step->RetryIn_0)@ == outcome->delay && (
            next->0)@ == outcome->attempt
        },
{
}

/// The complaint about a configured room ID names where it stands, what it is
/// and what is wrong with it.
pub proof fn law_invalid_rooms_are_named(field: Seq<char>, value: Seq<char>, error: Seq<char>)
    ensures
        text::occurs_in(room_error(field, value, error), field),
        text::occurs_in(room_error(field, value, error), text::debug_text(value)),
        text::occurs_in(room_error(field, value, error), error),
{
    let whole = room_error(field, value, error);
    let shown = text::debug_text(value);
    let start = "Invalid room ID in "@;
    text::lemma_occurs_between(start, field, ": "@ + shown + " ("@ + error + ")"@);
    assert(whole =~= start + field + (": "@ + shown + " ("@ + error + ")"@));
    text::lemma_occurs_between(start + field + ": "@, shown, " ("@ + error + ")"@);
    assert(whole =~= start + field + ": "@ + shown + (" ("@ + error + ")"@));
    text::lemma_occurs_between(start + field + ": "@ + shown + " ("@, error, ")"@);
}

} // verus!

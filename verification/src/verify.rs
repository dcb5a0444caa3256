//! Managed Matrix verification and SAS handling.
use vstd::prelude::*;

use crate::config;
use crate::config::{parse_user_ids, UserAllowList, VerificationConfig};
use crate::ids;
use crate::ids::{IdSet, MatrixId, OwnedRoomId, OwnedUserId};
use crate::rooms;
use crate::text;
use crate::text::same;
use crate::time;
use crate::time::Duration;

verus! {

/// A device ID, which may be any text.
pub type OwnedDeviceId = String;

/// How long sending a cancellation may take.
pub fn cancellation_timeout() -> (res: Duration)
    ensures
        res@ == 10_000_000_000,
{
    Duration::from_secs(10)
}

/// How a verification request is transported.
#[derive(Debug, PartialEq, Eq)]
pub enum VerificationTransport {
    ToDevice,
    InRoom(OwnedRoomId),
}

/// The room that a request is transported in, if it is in a room.
impl View for VerificationTransport {
    type V = Option<Seq<char>>;

    open spec fn view(&self) -> Option<Seq<char>> {
        match self {
            VerificationTransport::ToDevice => None,
            VerificationTransport::InRoom(room) => Some(room@),
        }
    }
}

impl Clone for VerificationTransport {
    fn clone(&self) -> (res: Self)
        ensures
            res@ == self@,
    {
        match self {
            VerificationTransport::ToDevice => VerificationTransport::ToDevice,
            VerificationTransport::InRoom(room) => VerificationTransport::InRoom(room.clone()),
        }
    }
}

/// How a request in `room_id`, or in no room, is transported.
pub fn transport_of(room_id: Option<OwnedRoomId>) -> (res: VerificationTransport)
    ensures
        res@ == (match room_id {
            Some(room) => Some(room@),
            None => None,
        }),
{
    match room_id {
        Some(room) => VerificationTransport::InRoom(room),
        None => VerificationTransport::ToDevice,
    }
}

/// Trust state observed before a verification starts.
#[derive(Clone, Copy, Debug, PartialEq, Eq, Structural)]
pub enum ExistingTrust {
    Unverified,
    Verified,
    VerificationViolation,
}

/// SAS data passed to an approval policy. It must not be written to ordinary logs.
#[derive(Debug, PartialEq, Eq)]
pub struct SasChallenge {
    pub user_id: OwnedUserId,
    pub device_id: OwnedDeviceId,
    pub transport: VerificationTransport,
    pub existing_trust: ExistingTrust,
    pub emojis: Option<Vec<(String, String)>>,
    pub decimals: Option<(u16, u16, u16)>,
}

/// A SAS challenge.
#[verifier::ext_equal]
pub struct ChallengeView {
    pub user: Seq<char>,
    pub device: Seq<char>,
    /// The room that the request is transported in, if it is in a room.
    pub room: Option<Seq<char>>,
    pub existing_trust: ExistingTrust,
    /// The symbols and their descriptions.
    pub emojis: Option<Seq<(Seq<char>, Seq<char>)>>,
    pub decimals: Option<(u16, u16, u16)>,
}

/// The symbols and descriptions of a list of emojis.
pub open spec fn emoji_views(emojis: Seq<(String, String)>) -> Seq<(Seq<char>, Seq<char>)> {
    Seq::new(emojis.len(), |i: int| (emojis[i].0@, emojis[i].1@))
}

impl View for SasChallenge {
    type V = ChallengeView;

    open spec fn view(&self) -> ChallengeView {
        ChallengeView {
            user: self.user_id@,
            device: self.device_id@,
            room: self.transport@,
            existing_trust: self.existing_trust,
            emojis: match self.emojis {
                Some(emojis) => Some(emoji_views(emojis@)),
                None => None,
            },
            decimals: self.decimals,
        }
    }
}

impl Clone for SasChallenge {
    fn clone(&self) -> (res: Self)
        ensures
            res@ == self@,
    {
        let emojis = match &self.emojis {
            Some(emojis) => Some(copy_emojis(emojis)),
            None => None,
        };
        SasChallenge {
            user_id: self.user_id.clone(),
            device_id: self.device_id.clone(),
            transport: self.transport.clone(),
            existing_trust: self.existing_trust,
            emojis,
            decimals: self.decimals,
        }
    }
}

/// The same emojis once more.
fn copy_emojis(emojis: &Vec<(String, String)>) -> (res: Vec<(String, String)>)
    ensures
        emoji_views(res@) == emoji_views(emojis@),
{
    let mut res: Vec<(String, String)> = Vec::new();
    let mut i: usize = 0;
    while i < emojis.len()
        invariant
            i <= emojis@.len(),
            emoji_views(res@) == emoji_views(emojis@).take(i as int),
        decreases emojis@.len() - i,
    {
        let ghost before = emoji_views(res@);
        res.push((emojis[i].0.clone(), emojis[i].1.clone()));
        assert(emoji_views(res@) =~= before.push(emoji_views(emojis@)[i as int]));
        assert(emoji_views(emojis@).take(i + 1) =~= before.push(emoji_views(emojis@)[i as int]));
        i += 1;
    }
    assert(emoji_views(emojis@).take(i as int) =~= emoji_views(emojis@));
    res
}

/// The challenge that an approval policy is asked about: with whom the bot
/// verifies, and the short strings that both sides see.
pub fn sas_challenge(
    user_id: &OwnedUserId,
    device_id: &OwnedDeviceId,
    transport: &VerificationTransport,
    existing_trust: ExistingTrust,
    emojis: Option<Vec<(String, String)>>,
    decimals: Option<(u16, u16, u16)>,
) -> (res: SasChallenge)
    ensures
        res.user_id@ == user_id@,
        res.device_id@ == device_id@,
        res.transport@ == transport@,
        res.existing_trust == existing_trust,
        res.emojis == emojis,
        res.decimals == decimals,
{
    SasChallenge {
        user_id: user_id.clone(),
        device_id: device_id.clone(),
        transport: transport.clone(),
        existing_trust,
        emojis,
        decimals,
    }
}

#[derive(Clone, Copy, Debug, PartialEq, Eq, Structural)]
pub enum ApprovalDecision {
    Approve,
    Reject,
}

/// Runtime limits for verification handling.
#[derive(Clone, Copy, Debug)]
pub struct VerificationSettings {
    pub flow_timeout: Duration,
    pub grant_ttl: Duration,
    pub max_concurrent: usize,
}

impl Default for VerificationSettings {
    fn default() -> (res: Self)
        ensures
            res.flow_timeout@ == 300_000_000_000,
            res.grant_ttl@ == 600_000_000_000,
            res.max_concurrent == 8,
    {
        VerificationSettings {
            flow_timeout: Duration::from_secs(300),
            grant_ttl: Duration::from_secs(600),
            max_concurrent: 8,
        }
    }
}

// Grants

/// A one-shot permission to verify: for any device of the user, or for one.
#[derive(Debug)]
pub struct VerificationGrant {
    pub device_id: Option<OwnedDeviceId>,
    pub expires_at: Duration,
}

/// What a grant says.
#[verifier::ext_equal]
pub struct GrantView {
    pub device_id: Option<Seq<char>>,
    /// The point in time from which on the grant is void.
    pub expires_at: nat,
}

impl View for VerificationGrant {
    type V = GrantView;

    open spec fn view(&self) -> GrantView {
        GrantView {
            device_id: text::option_view(self.device_id),
            expires_at: self.expires_at@,
        }
    }
}

/// The text of an optional device ID.
pub open spec fn device_text(device: Option<&OwnedDeviceId>) -> Option<Seq<char>> {
    match device {
        Some(device) => Some(device@),
        None => None,
    }
}

/// Whether a grant has not expired.
pub open spec fn is_live(grant: GrantView, now: nat) -> bool {
    now < grant.expires_at
}

/// Whether a grant permits the device to verify now. Where the device is
/// unknown, only a grant for any device does.
pub open spec fn grant_matches(grant: GrantView, device: Option<Seq<char>>, now: nat) -> bool {
    is_live(grant, now) && (grant.device_id is None || grant.device_id == device)
}

impl VerificationGrant {
    /// Whether the grant permits the device to verify now.
    pub fn matches(&self, device_id: Option<&OwnedDeviceId>, now: Duration) -> (res: bool)
        ensures
            res == grant_matches(self@, device_text(device_id), now@),
    {
        if now.at_least(self.expires_at) {
            return false;
        }
        match (&self.device_id, device_id) {
            (None, _) => true,
            (Some(expected), Some(actual)) => same(expected.as_str(), actual.as_str()),
            (Some(_), None) => false,
        }
    }
}

/// The grants of a list that have not expired.
pub open spec fn live_grants(list: Seq<GrantView>, now: nat) -> Seq<GrantView>
    decreases list.len(),
{
    if list.len() == 0 {
        seq![]
    } else if is_live(list[0], now) {
        seq![list[0]] + live_grants(list.drop_first(), now)
    } else {
        live_grants(list.drop_first(), now)
    }
}

/// The position of the first grant that matches; the length when there is
/// none.
pub open spec fn first_match(list: Seq<GrantView>, device: Option<Seq<char>>, now: nat) -> int
    decreases list.len(),
{
    if list.len() == 0 || grant_matches(list[0], device, now) {
        0
    } else {
        1 + first_match(list.drop_first(), device, now)
    }
}

/// Whether a grant of the list permits the device to verify now.
pub open spec fn any_matches(list: Seq<GrantView>, device: Option<Seq<char>>, now: nat) -> bool {
    exists|i: int| 0 <= i < list.len() && grant_matches(#[trigger] list[i], device, now)
}

/// The list after its first matching grant was used up and the expired ones
/// were dropped.
pub open spec fn after_use(list: Seq<GrantView>, device: Option<Seq<char>>, now: nat) -> Seq<
    GrantView,
> {
    let live = live_grants(list, now);
    let n = first_match(live, device, now);
    if n < live.len() {
        live.remove(n)
    } else {
        live
    }
}

/// The grants of all users.
#[derive(Debug)]
pub struct Grants {
    entries: Vec<(OwnedUserId, VerificationGrant)>,
}

/// The grants of one user, oldest first.
pub open spec fn grants_of(
    entries: Seq<(OwnedUserId, VerificationGrant)>,
    user: Seq<char>,
) -> Seq<GrantView>
    decreases entries.len(),
{
    if entries.len() == 0 {
        seq![]
    } else if entries[0].0@ == user {
        seq![entries[0].1@] + grants_of(entries.drop_first(), user)
    } else {
        grants_of(entries.drop_first(), user)
    }
}

/// The grants in two lists, one after the other.
proof fn lemma_grants_of_concat(
    a: Seq<(OwnedUserId, VerificationGrant)>,
    b: Seq<(OwnedUserId, VerificationGrant)>,
    user: Seq<char>,
)
    ensures
        grants_of(a + b, user) == grants_of(a, user) + grants_of(b, user),
    decreases a.len(),
{
    if a.len() == 0 {
        assert(a + b =~= b);
        assert(grants_of(a, user) + grants_of(b, user) =~= grants_of(b, user));
    } else {
        lemma_grants_of_concat(a.drop_first(), b, user);
        assert((a + b).drop_first() =~= a.drop_first() + b);
        assert(grants_of(a + b, user) =~= grants_of(a, user) + grants_of(b, user));
    }
}

/// The grants in a list of one entry.
proof fn lemma_grants_of_one(entry: (OwnedUserId, VerificationGrant), user: Seq<char>)
    ensures
        grants_of(seq![entry], user) == (if entry.0@ == user {
            seq![entry.1@]
        } else {
            Seq::<GrantView>::empty()
        }),
{
    assert(seq![entry].drop_first() =~= Seq::<(OwnedUserId, VerificationGrant)>::empty());
    assert(grants_of(seq![entry].drop_first(), user) =~= Seq::<GrantView>::empty());
    assert(seq![entry.1@] + Seq::<GrantView>::empty() =~= seq![entry.1@]);
}

/// What removing an entry does to the grants.
proof fn lemma_grants_of_split(
    entries: Seq<(OwnedUserId, VerificationGrant)>,
    n: int,
    user: Seq<char>,
)
    requires
        0 <= n < entries.len(),
    ensures
        grants_of(entries, user) == grants_of(entries.take(n), user) + (if entries[n].0@ == user {
            seq![entries[n].1@]
        } else {
            Seq::<GrantView>::empty()
        }) + grants_of(entries.skip(n + 1), user),
        grants_of(entries.remove(n), user) == grants_of(entries.take(n), user) + grants_of(
            entries.skip(n + 1),
            user,
        ),
        entries[n].0@ != user ==> grants_of(entries.remove(n), user) == grants_of(entries, user),
{
    let before = entries.take(n);
    let after = entries.skip(n + 1);
    assert(entries =~= before + (seq![entries[n]] + after));
    assert(entries.remove(n) =~= before + after);
    lemma_grants_of_concat(before, seq![entries[n]] + after, user);
    lemma_grants_of_concat(seq![entries[n]], after, user);
    lemma_grants_of_one(entries[n], user);
    lemma_grants_of_concat(before, after, user);
    assert(grants_of(before, user) + (grants_of(seq![entries[n]], user) + grants_of(after, user))
        =~= grants_of(before, user) + grants_of(seq![entries[n]], user) + grants_of(after, user));
    assert(grants_of(before, user) + Seq::<GrantView>::empty() + grants_of(after, user)
        =~= grants_of(before, user) + grants_of(after, user));
}

/// The live grants in two lists, one after the other.
proof fn lemma_live_concat(a: Seq<GrantView>, b: Seq<GrantView>, now: nat)
    ensures
        live_grants(a + b, now) == live_grants(a, now) + live_grants(b, now),
    decreases a.len(),
{
    if a.len() == 0 {
        assert(a + b =~= b);
        assert(live_grants(a, now) + live_grants(b, now) =~= live_grants(b, now));
    } else {
        lemma_live_concat(a.drop_first(), b, now);
        assert((a + b).drop_first() =~= a.drop_first() + b);
        assert(live_grants(a + b, now) =~= live_grants(a, now) + live_grants(b, now));
    }
}

/// Every live grant of a list is in it, has not expired and is kept.
proof fn lemma_live_grants(list: Seq<GrantView>, now: nat)
    ensures
        forall|i: int|
            0 <= i < live_grants(list, now).len() ==> is_live(
                #[trigger] live_grants(list, now)[i],
                now,
            ) && list.contains(live_grants(list, now)[i]),
        forall|i: int|
            0 <= i < list.len() && is_live(#[trigger] list[i], now) ==> live_grants(
                list,
                now,
            ).contains(list[i]),
        live_grants(list, now).len() <= list.len(),
    decreases list.len(),
{
    if list.len() > 0 {
        let rest = list.drop_first();
        let live = live_grants(list, now);
        lemma_live_grants(rest, now);
        assert forall|i: int| 0 <= i < live.len() implies is_live(#[trigger] live[i], now)
            && list.contains(live[i]) by {
            let tail = live_grants(rest, now);
            let k = if is_live(list[0], now) {
                i - 1
            } else {
                i
            };
            if k >= 0 {
                assert(live[i] == tail[k]);
                assert(rest.contains(tail[k]));
                let m = choose|m: int| 0 <= m < rest.len() && rest[m] == tail[k];
                assert(list[m + 1] == live[i]);
            } else {
                assert(live[i] == list[0]);
            }
        }
        assert forall|i: int| 0 <= i < list.len() && is_live(#[trigger] list[i], now) implies live.contains(
        list[i]) by {
            if i == 0 {
                assert(live[0] == list[0]);
            } else {
                assert(rest[i - 1] == list[i]);
                let tail = live_grants(rest, now);
                let k = choose|k: int| 0 <= k < tail.len() && tail[k] == list[i];
                let n = if is_live(list[0], now) {
                    k + 1
                } else {
                    k
                };
                assert(live[n] == list[i]);
            }
        }
    }
}

/// What `first_match` returns.
proof fn lemma_first_match(list: Seq<GrantView>, device: Option<Seq<char>>, now: nat)
    ensures
        0 <= first_match(list, device, now) <= list.len(),
        forall|i: int|
            0 <= i < first_match(list, device, now) ==> !grant_matches(
                #[trigger] list[i],
                device,
                now,
            ),
        first_match(list, device, now) < list.len() ==> grant_matches(
            list[first_match(list, device, now)],
            device,
            now,
        ),
        any_matches(list, device, now) <==> first_match(list, device, now) < list.len(),
    decreases list.len(),
{
    if list.len() > 0 && !grant_matches(list[0], device, now) {
        let rest = list.drop_first();
        lemma_first_match(rest, device, now);
        let n = first_match(list, device, now);
        assert forall|i: int| 0 <= i < n implies !grant_matches(#[trigger] list[i], device, now) by {
            if i > 0 {
                assert(rest[i - 1] == list[i]);
            }
        }
        if n < list.len() {
            assert(rest[n - 1] == list[n]);
        }
    }
}

/// The first match is where the earlier grants do not match and this one
/// does.
proof fn lemma_first_match_at(
    before: Seq<GrantView>,
    grant: GrantView,
    after: Seq<GrantView>,
    device: Option<Seq<char>>,
    now: nat,
)
    requires
        grant_matches(grant, device, now),
        forall|i: int|
            0 <= i < before.len() ==> !grant_matches(#[trigger] before[i], device, now),
    ensures
        first_match(before + seq![grant] + after, device, now) == before.len(),
{
    let list = before + seq![grant] + after;
    lemma_first_match(list, device, now);
    let n = first_match(list, device, now);
    assert(list[before.len() as int] == grant);
    if n < before.len() {
        assert(list[n] == before[n]);
    }
}

impl Grants {
    /// The grants of one user, oldest first.
    pub closed spec fn of(&self, user: Seq<char>) -> Seq<GrantView> {
        grants_of(self.entries@, user)
    }

    /// No grants.
    pub fn new() -> (res: Self)
        ensures
            forall|user: Seq<char>| (#[trigger] res.of(user)).len() == 0,
    {
        Grants { entries: Vec::new() }
    }

    /// Adds a grant.
    pub fn insert(&mut self, user_id: OwnedUserId, grant: VerificationGrant)
        ensures
            forall|user: Seq<char>| #[trigger]
                final(self).of(user) == (if user == user_id@ {
                    old(self).of(user).push(grant@)
                } else {
                    old(self).of(user)
                }),
    {
        let ghost before = self.entries@;
        self.entries.push((user_id, grant));
        proof {
            assert(self.entries@ =~= before + seq![(user_id, grant)]);
            assert forall|user: Seq<char>| #[trigger]
                self.of(user) == (if user == user_id@ {
                    old(self).of(user).push(grant@)
                } else {
                    old(self).of(user)
                }) by {
                lemma_grants_of_concat(before, seq![(user_id, grant)], user);
                lemma_grants_of_one((user_id, grant), user);
                if user == user_id@ {
                    assert(self.of(user) =~= old(self).of(user).push(grant@));
                } else {
                    assert(self.of(user) =~= old(self).of(user));
                }
            }
        }
    }

    /// Drops the user's expired grants.
    fn prune(&mut self, user_id: &OwnedUserId, now: Duration)
        ensures
            forall|user: Seq<char>| #[trigger]
                final(self).of(user) == (if user == user_id@ {
                    live_grants(old(self).of(user), now@)
                } else {
                    old(self).of(user)
                }),
    {
        let mut i: usize = 0;
        proof {
            assert(self.entries@.take(0) =~= Seq::<(OwnedUserId, VerificationGrant)>::empty());
            assert(self.entries@.skip(0) =~= self.entries@);
            assert(live_grants(self.of(user_id@), now@) =~= Seq::<GrantView>::empty() + live_grants(
                self.of(user_id@),
                now@,
            ));
        }
        while i < self.entries.len()
            invariant
                i <= self.entries@.len(),
                live_grants(old(self).of(user_id@), now@) == grants_of(
                    self.entries@.take(i as int),
                    user_id@,
                ) + live_grants(grants_of(self.entries@.skip(i as int), user_id@), now@),
                forall|user: Seq<char>|
                    user != user_id@ ==> #[trigger] grants_of(self.entries@, user) == old(self).of(
                        user,
                    ),
            decreases self.entries@.len() - i,
        {
            let ghost entries = self.entries@;
            let ghost n = i as int;
            let ghost mine = user_id@;
            let own = same(self.entries[i].0.as_str(), user_id.as_str());
            let expired = now.at_least(self.entries[i].1.expires_at);
            proof {
                // The entry in question, apart from those after it.
                let one = seq![entries[n]];
                assert(entries.skip(n) =~= one + entries.skip(n + 1));
                lemma_grants_of_concat(one, entries.skip(n + 1), mine);
                lemma_grants_of_one(entries[n], mine);
                lemma_live_concat(
                    grants_of(one, mine),
                    grants_of(entries.skip(n + 1), mine),
                    now@,
                );
                lemma_live_one(entries[n].1@, now@);
            }
            if own && expired {
                let _dropped = self.entries.remove(i);
                proof {
                    assert(self.entries@ =~= entries.remove(n));
                    assert(self.entries@.take(n) =~= entries.take(n));
                    assert(self.entries@.skip(n) =~= entries.skip(n + 1));
                    assert(live_grants(old(self).of(mine), now@) =~= grants_of(
                        entries.take(n),
                        mine,
                    ) + live_grants(grants_of(entries.skip(n + 1), mine), now@));
                    assert forall|user: Seq<char>| user != mine implies #[trigger] grants_of(
                        self.entries@,
                        user,
                    ) == old(self).of(user) by {
                        lemma_grants_of_split(entries, n, user);
                        assert(grants_of(entries, user) == old(self).of(user));
                    }
                }
            } else {
                proof {
                    assert(entries.take(n + 1) =~= entries.take(n) + seq![entries[n]]);
                    lemma_grants_of_concat(entries.take(n), seq![entries[n]], mine);
                    assert(live_grants(old(self).of(mine), now@) =~= grants_of(
                        entries.take(n + 1),
                        mine,
                    ) + live_grants(grants_of(entries.skip(n + 1), mine), now@));
                }
                i += 1;
            }
        }
        proof {
            assert(self.entries@.take(i as int) =~= self.entries@);
            assert(self.entries@.skip(i as int) =~= Seq::<
                (OwnedUserId, VerificationGrant),
            >::empty());
            assert(self.of(user_id@) =~= live_grants(old(self).of(user_id@), now@));
        }
    }
}

/// The live grants of a list of at most one grant.
proof fn lemma_live_one(grant: GrantView, now: nat)
    ensures
        live_grants(seq![grant], now) == (if is_live(grant, now) {
            seq![grant]
        } else {
            Seq::<GrantView>::empty()
        }),
        live_grants(Seq::<GrantView>::empty(), now) == Seq::<GrantView>::empty(),
{
    assert(seq![grant].drop_first() =~= Seq::<GrantView>::empty());
    assert(live_grants(seq![grant].drop_first(), now) =~= Seq::<GrantView>::empty());
    assert(seq![grant] + Seq::<GrantView>::empty() =~= seq![grant]);
}

/// Matching grants are live, so dropping the expired ones loses none.
proof fn lemma_matches_are_live(list: Seq<GrantView>, device: Option<Seq<char>>, now: nat)
    ensures
        any_matches(live_grants(list, now), device, now) == any_matches(list, device, now),
{
    let live = live_grants(list, now);
    lemma_live_grants(list, now);
    if any_matches(live, device, now) {
        let i = choose|i: int| 0 <= i < live.len() && grant_matches(#[trigger] live[i], device, now);
        assert(list.contains(live[i]));
        let k = choose|k: int| 0 <= k < list.len() && list[k] == live[i];
        assert(grant_matches(list[k], device, now));
    }
    if any_matches(list, device, now) {
        let i = choose|i: int| 0 <= i < list.len() && grant_matches(#[trigger] list[i], device, now);
        assert(live.contains(list[i]));
        let k = choose|k: int| 0 <= k < live.len() && live[k] == list[i];
        assert(grant_matches(live[k], device, now));
    }
}

/// The position of the user's first grant that permits the device to verify
/// now; the length when there is none.
fn matching_entry(
    entries: &Vec<(OwnedUserId, VerificationGrant)>,
    user_id: &OwnedUserId,
    device_id: Option<&OwnedDeviceId>,
    now: Duration,
) -> (n: usize)
    ensures
        n <= entries@.len(),
        n < entries@.len() ==> entries@[n as int].0@ == user_id@ && grant_matches(
            entries@[n as int].1@,
            device_text(device_id),
            now@,
        ),
        forall|k: int|
            0 <= k < grants_of(entries@.take(n as int), user_id@).len() ==> !grant_matches(
                #[trigger] grants_of(entries@.take(n as int), user_id@)[k],
                device_text(device_id),
                now@,
            ),
        any_matches(grants_of(entries@, user_id@), device_text(device_id), now@) <==> n
            < entries@.len(),
{
    let ghost mine = user_id@;
    let ghost device = device_text(device_id);
    let mut i: usize = 0;
    assert(entries@.take(0) =~= Seq::<(OwnedUserId, VerificationGrant)>::empty());
    while i < entries.len()
        invariant
            i <= entries@.len(),
            mine == user_id@,
            device == device_text(device_id),
            forall|k: int|
                0 <= k < grants_of(entries@.take(i as int), mine).len() ==> !grant_matches(
                    #[trigger] grants_of(entries@.take(i as int), mine)[k],
                    device,
                    now@,
                ),
        decreases entries@.len() - i,
    {
        let ghost n = i as int;
        if same(entries[i].0.as_str(), user_id.as_str()) && entries[i].1.matches(device_id, now) {
            proof {
                lemma_grants_of_split(entries@, n, mine);
                let all = grants_of(entries@, mine);
                let at = grants_of(entries@.take(n), mine).len() as int;
                assert(all[at] == entries@[n].1@);
                assert(grant_matches(all[at], device, now@));
            }
            return i;
        }
        proof {
            let before = grants_of(entries@.take(n), mine);
            assert(entries@.take(n + 1) =~= entries@.take(n) + seq![entries@[n]]);
            lemma_grants_of_concat(entries@.take(n), seq![entries@[n]], mine);
            lemma_grants_of_one(entries@[n], mine);
            let next = grants_of(entries@.take(n + 1), mine);
            assert forall|k: int| 0 <= k < next.len() implies !grant_matches(
                #[trigger] next[k],
                device,
                now@,
            ) by {
                if k < before.len() {
                    assert(next[k] == before[k]);
                } else {
                    assert(next[k] == entries@[n].1@);
                }
            }
        }
        i += 1;
    }
    assert(entries@.take(i as int) =~= entries@);
    i
}

/// Uses up the user's first grant that permits the device to verify now.
/// The user's expired grants are dropped on the way.
pub fn consume_matching_grant(
    grants: &mut Grants,
    user_id: &OwnedUserId,
    device_id: Option<&OwnedDeviceId>,
    now: Duration,
) -> (res: bool)
    ensures
        res == any_matches(old(grants).of(user_id@), device_text(device_id), now@),
        forall|user: Seq<char>| #[trigger]
            final(grants).of(user) == (if user == user_id@ {
                after_use(old(grants).of(user), device_text(device_id), now@)
            } else {
                old(grants).of(user)
            }),
{
    let ghost mine = user_id@;
    let ghost device = device_text(device_id);
    grants.prune(user_id, now);
    let ghost live = grants.of(mine);
    let ghost entries = grants.entries@;
    proof {
        lemma_matches_are_live(old(grants).of(mine), device, now@);
        lemma_first_match(live, device, now@);
        assert forall|user: Seq<char>| user != mine implies #[trigger] grants_of(entries, user)
            == old(grants).of(user) by {
            assert(grants.of(user) == old(grants).of(user));
        }
    }
    let n = matching_entry(&grants.entries, user_id, device_id, now);
    if n == grants.entries.len() {
        return false;
    }
    let _used = grants.entries.remove(n);
    proof {
        let at = n as int;
        let before = grants_of(entries.take(at), mine);
        let after = grants_of(entries.skip(at + 1), mine);
        let grant = entries[at].1@;
        lemma_grants_of_split(entries, at, mine);
        lemma_first_match_at(before, grant, after, device, now@);
        assert(live =~= before + seq![grant] + after);
        assert(live.remove(before.len() as int) =~= before + after);
        assert forall|user: Seq<char>| user != mine implies #[trigger] grants.of(user) == old(
            grants,
        ).of(user) by {
            lemma_grants_of_split(entries, at, user);
            assert(grants_of(entries, user) == old(grants).of(user));
        }
    }
    true
}

/// Whether the user has a grant that permits the device to verify now. The
/// user's expired grants are dropped on the way.
fn has_matching_grant(
    grants: &mut Grants,
    user_id: &OwnedUserId,
    device_id: &OwnedDeviceId,
    now: Duration,
) -> (res: bool)
    ensures
        res == any_matches(old(grants).of(user_id@), Some(device_id@), now@),
        forall|user: Seq<char>| #[trigger]
            final(grants).of(user) == (if user == user_id@ {
                live_grants(old(grants).of(user), now@)
            } else {
                old(grants).of(user)
            }),
{
    grants.prune(user_id, now);
    proof {
        lemma_matches_are_live(old(grants).of(user_id@), Some(device_id@), now@);
        assert(grants.of(user_id@) == live_grants(old(grants).of(user_id@), now@));
    }
    matching_entry(&grants.entries, user_id, Some(device_id), now) < grants.entries.len()
}

// Flows

/// One verification flow: the other user, and the ID of the flow.
#[derive(Debug)]
pub struct FlowKey {
    pub user_id: OwnedUserId,
    pub flow_id: String,
}

/// One verification flow: the other user, and the ID of the flow.
#[verifier::ext_equal]
pub struct FlowView {
    pub user: Seq<char>,
    pub flow: Seq<char>,
}

impl View for FlowKey {
    type V = FlowView;

    open spec fn view(&self) -> FlowView {
        FlowView { user: self.user_id@, flow: self.flow_id@ }
    }
}

impl Clone for FlowKey {
    fn clone(&self) -> (res: Self)
        ensures
            res@ == self@,
    {
        FlowKey { user_id: self.user_id.clone(), flow_id: self.flow_id.clone() }
    }
}

#[derive(Clone, Copy, Debug, PartialEq, Eq, Structural)]
pub enum Reservation {
    Reserved,
    Duplicate,
    Concurrent,
}

/// The flows of a list.
pub open spec fn flow_views(list: Seq<FlowKey>) -> Seq<FlowView> {
    Seq::new(list.len(), |i: int| list[i]@)
}

/// A set of flows.
#[derive(Debug)]
pub struct FlowSet {
    items: Vec<FlowKey>,
}

impl View for FlowSet {
    type V = Set<FlowView>;

    closed spec fn view(&self) -> Set<FlowView> {
        flow_views(self.items@).to_set()
    }
}

/// Whether the user has a flow in the set.
pub open spec fn has_flow(flows: Set<FlowView>, user: Seq<char>) -> bool {
    exists|flow: FlowView| #[trigger] flows.contains(flow) && flow.user == user
}

/// What reserving a flow comes to: a flow that is under way is a duplicate,
/// and a user has one flow at a time.
pub open spec fn reservation_of(flows: Set<FlowView>, flow: FlowView) -> Reservation {
    if flows.contains(flow) {
        Reservation::Duplicate
    } else if has_flow(flows, flow.user) {
        Reservation::Concurrent
    } else {
        Reservation::Reserved
    }
}

/// The flows after reserving one.
pub open spec fn after_reservation(flows: Set<FlowView>, flow: FlowView) -> Set<FlowView> {
    if reservation_of(flows, flow) is Reserved {
        flows.insert(flow)
    } else {
        flows
    }
}

impl FlowSet {
    #[verifier::type_invariant]
    spec fn distinct(self) -> bool {
        flow_views(self.items@).no_duplicates()
    }

    /// No flows.
    pub fn new() -> (res: Self)
        ensures
            res@ == Set::<FlowView>::empty(),
    {
        let res = FlowSet { items: Vec::new() };
        assert(res@ =~= Set::<FlowView>::empty());
        res
    }

    /// The number of flows.
    pub fn len(&self) -> (res: usize)
        ensures
            res == self@.len(),
            self@.finite(),
    {
        proof {
            use_type_invariant(self);
            flow_views(self.items@).unique_seq_to_set();
            vstd::seq_lib::seq_to_set_is_finite(flow_views(self.items@));
        }
        self.items.len()
    }

    /// Ends a flow.
    pub fn remove(&mut self, flow: &FlowKey)
        ensures
            final(self)@ == old(self)@.remove(flow@),
    {
        proof {
            use_type_invariant(&*self);
        }
        let ghost all = flow_views(self.items@);
        let mut i: usize = 0;
        while i < self.items.len()
            invariant
                i <= self.items@.len(),
                all == flow_views(self.items@),
                all.no_duplicates(),
                *self == *old(self),
                forall|k: int| 0 <= k < i ==> all[k] != flow@,
            decreases self.items@.len() - i,
        {
            if same(self.items[i].user_id.as_str(), flow.user_id.as_str()) && same(
                self.items[i].flow_id.as_str(),
                flow.flow_id.as_str(),
            ) {
                assert(all[i as int] == flow@);
                let mut items: Vec<FlowKey> = Vec::new();
                std::mem::swap(&mut items, &mut self.items);
                let _ended = items.remove(i);
                proof {
                    let rest = flow_views(items@);
                    assert(rest =~= all.remove(i as int));
                    assert forall|x: FlowView| rest.to_set().contains(x) == all.to_set().remove(
                        flow@,
                    ).contains(x) by {
                        if rest.contains(x) {
                            let k = choose|k: int| 0 <= k < rest.len() && rest[k] == x;
                            let m = if k < i {
                                k
                            } else {
                                k + 1
                            };
                            assert(all[m] == x);
                        }
                        if all.contains(x) && x != flow@ {
                            let k = choose|k: int| 0 <= k < all.len() && all[k] == x;
                            let m = if k < i {
                                k
                            } else {
                                k - 1
                            };
                            assert(rest[m] == x);
                        }
                    }
                    assert(rest.to_set() =~= all.to_set().remove(flow@));
                    assert(rest.no_duplicates());
                }
                self.items = items;
                return;
            }
            assert(all[i as int] != flow@);
            i += 1;
        }
        assert(!all.contains(flow@));
        assert(self@ =~= self@.remove(flow@));
    }
}

/// Reserves a flow, unless it is under way or the user has another one.
pub fn reserve_flow(active: &mut FlowSet, flow: &FlowKey) -> (res: Reservation)
    ensures
        res == reservation_of(old(active)@, flow@),
        final(active)@ == after_reservation(old(active)@, flow@),
{
    proof {
        use_type_invariant(&*active);
    }
    let ghost all = flow_views(active.items@);
    let mut taken = false;
    let mut i: usize = 0;
    while i < active.items.len()
        invariant
            i <= active.items@.len(),
            all == flow_views(active.items@),
            *active == *old(active),
            forall|k: int| 0 <= k < i ==> all[k] != flow@,
            taken == exists|k: int| 0 <= k < i && (#[trigger] all[k]).user == flow@.user,
        decreases active.items@.len() - i,
    {
        assert(all[i as int] == active.items@[i as int]@);
        if same(active.items[i].user_id.as_str(), flow.user_id.as_str()) {
            if same(active.items[i].flow_id.as_str(), flow.flow_id.as_str()) {
                assert(all[i as int] == flow@);
                return Reservation::Duplicate;
            }
            taken = true;
        }
        i += 1;
    }
    assert(!all.contains(flow@));
    if taken {
        proof {
            let k = choose|k: int| 0 <= k < all.len() && (#[trigger] all[k]).user == flow@.user;
            assert(active@.contains(all[k]));
        }
        return Reservation::Concurrent;
    }
    proof {
        assert(!has_flow(active@, flow@.user)) by {
            if has_flow(active@, flow@.user) {
                let other = choose|other: FlowView| #[trigger]
                    active@.contains(other) && other.user == flow@.user;
                assert(all.contains(other));
                let k = choose|k: int| 0 <= k < all.len() && all[k] == other;
                assert(all[k].user == flow@.user);
            }
        }
    }
    let mut items: Vec<FlowKey> = Vec::new();
    std::mem::swap(&mut items, &mut active.items);
    items.push(flow.clone());
    proof {
        let after = flow_views(items@);
        assert(after =~= all.push(flow@));
        assert forall|x: FlowView| after.to_set().contains(x) == all.to_set().insert(
            flow@,
        ).contains(x) by {
            if all.contains(x) {
                let k = choose|k: int| 0 <= k < all.len() && all[k] == x;
                assert(after[k] == x);
            }
            assert(after[all.len() as int] == flow@);
            if after.contains(x) && x != flow@ {
                let k = choose|k: int| 0 <= k < after.len() && after[k] == x;
                assert(all[k] == x);
            }
        }
        assert(after.to_set() =~= all.to_set().insert(flow@));
        assert(after.no_duplicates());
    }
    active.items = items;
    Reservation::Reserved
}

// Trust

/// What a look at a user's identity found.
#[derive(Clone, Copy, Debug, PartialEq, Eq, Structural)]
pub enum IdentityLookup {
    /// The lookup failed.
    Failed,
    /// The user has no known identity.
    Unknown,
    /// The user's identity is known.
    Known { violation: bool, verified: bool },
}

/// The trust in a user. Where it cannot be found out, the strictest answer
/// is assumed.
pub open spec fn trust_of(lookup: IdentityLookup) -> ExistingTrust {
    match lookup {
        IdentityLookup::Failed => ExistingTrust::VerificationViolation,
        IdentityLookup::Unknown => ExistingTrust::Unverified,
        IdentityLookup::Known { violation, verified } => if violation {
            ExistingTrust::VerificationViolation
        } else if verified {
            ExistingTrust::Verified
        } else {
            ExistingTrust::Unverified
        },
    }
}

/// The trust in a user, from what is known of their identity.
pub fn existing_trust(lookup: IdentityLookup) -> (res: ExistingTrust)
    ensures
        res == trust_of(lookup),
{
    match lookup {
        IdentityLookup::Known { violation, .. } if violation => {
            ExistingTrust::VerificationViolation
        },
        IdentityLookup::Known { verified, .. } if verified => ExistingTrust::Verified,
        IdentityLookup::Failed => ExistingTrust::VerificationViolation,
        _ => ExistingTrust::Unverified,
    }
}

/// The trust in a user, in words.
pub fn trust_summary(trust: ExistingTrust) -> (res: &'static str)
    ensures
        res@ == trust_words(trust),
{
    match trust {
        ExistingTrust::Verified => "verified",
        ExistingTrust::Unverified => "not verified",
        ExistingTrust::VerificationViolation => "verification violation",
    }
}

/// The trust in a user, in words.
pub open spec fn trust_words(trust: ExistingTrust) -> Seq<char> {
    match trust {
        ExistingTrust::Verified => "verified"@,
        ExistingTrust::Unverified => "not verified"@,
        ExistingTrust::VerificationViolation => "verification violation"@,
    }
}

/// Whether verifying takes a grant: only the first contact with an allowed
/// user does not.
pub open spec fn needs_grant(allowed: bool, trust: ExistingTrust) -> bool {
    !(allowed && trust is Unverified)
}

/// Whether verifying takes an administrative grant.
pub fn authorization_requires_grant(allowed: bool, existing_trust: ExistingTrust) -> (res: bool)
    ensures
        res == needs_grant(allowed, existing_trust),
{
    !allowed || existing_trust != ExistingTrust::Unverified
}

// The service

/// What becomes of a verification request.
#[derive(Clone, Copy, Debug, PartialEq, Eq, Structural)]
pub enum Admission {
    /// The request was already done or cancelled: it is passed over.
    Terminal,
    /// The request is being handled: it is passed over.
    Duplicate,
    /// The user has another flow: the request is cancelled.
    Concurrent,
    /// Too many flows are under way: the request is cancelled.
    Full,
    /// The flow is now under way, until it is finished.
    Admitted,
}

/// Why the bot does not start a verification with a device.
#[derive(Clone, Copy, Debug, PartialEq, Eq, Structural)]
pub enum DeviceRequestError {
    NotAllowed,
    UnknownDevice,
}

impl DeviceRequestError {
    /// The error in words.
    pub fn message(&self) -> (res: &'static str)
        ensures
            res@ == (match self {
                DeviceRequestError::NotAllowed => "user is not allowed to verify with this bot"@,
                DeviceRequestError::UnknownDevice => {
                    "device is not present in the bot's crypto store"@
                },
            }),
    {
        match self {
            DeviceRequestError::NotAllowed => "user is not allowed to verify with this bot",
            DeviceRequestError::UnknownDevice => "device is not present in the bot's crypto store",
        }
    }
}

/// Shared verification service used by Matrix bots: who may verify, and
/// which flows are under way.
#[derive(Debug)]
pub struct VerificationService {
    allowed_users: IdSet<OwnedUserId>,
    allow_joined_rooms: bool,
    settings: VerificationSettings,
    approves_all: bool,
    grants: Grants,
    active: FlowSet,
}

/// The state of a verification service.
#[verifier::ext_equal]
pub struct ServiceView {
    /// The users who may verify without a grant.
    pub allowed: Set<Seq<char>>,
    /// Whether sharing a joined room with the bot allows a user too.
    pub allow_joined_rooms: bool,
    pub flow_timeout: nat,
    pub grant_ttl: nat,
    /// How many flows may be under way at once.
    pub capacity: nat,
    /// Whether every SAS is approved without asking.
    pub approves_all: bool,
    /// The grants of each user, oldest first.
    pub grants: Map<Seq<char>, Seq<GrantView>>,
    pub active: Set<FlowView>,
}

/// How many flows the settings let be under way at once: at least one.
pub open spec fn capacity_of(max_concurrent: usize) -> nat {
    if max_concurrent == 0 {
        1
    } else {
        max_concurrent as nat
    }
}

/// No grants for any user.
pub open spec fn no_grants() -> Map<Seq<char>, Seq<GrantView>> {
    Map::new(|user: Seq<char>| true, |user: Seq<char>| Seq::<GrantView>::empty())
}

/// Whether no user has two flows.
pub open spec fn one_per_user(flows: Set<FlowView>) -> bool {
    forall|a: FlowView, b: FlowView| #[trigger]
        flows.contains(a) && #[trigger] flows.contains(b) && a.user == b.user ==> a == b
}

impl View for VerificationService {
    type V = ServiceView;

    closed spec fn view(&self) -> ServiceView {
        ServiceView {
            allowed: self.allowed_users@,
            allow_joined_rooms: self.allow_joined_rooms,
            flow_timeout: self.settings.flow_timeout@,
            grant_ttl: self.settings.grant_ttl@,
            capacity: capacity_of(self.settings.max_concurrent),
            approves_all: self.approves_all,
            grants: Map::new(|user: Seq<char>| true, |user: Seq<char>| self.grants.of(user)),
            active: self.active@,
        }
    }
}

/// A service before the first request.
pub open spec fn new_service(
    allowed: Set<Seq<char>>,
    allow_joined_rooms: bool,
    settings: VerificationSettings,
    approves_all: bool,
) -> ServiceView {
    ServiceView {
        allowed,
        allow_joined_rooms,
        flow_timeout: settings.flow_timeout@,
        grant_ttl: settings.grant_ttl@,
        capacity: capacity_of(settings.max_concurrent),
        approves_all,
        grants: no_grants(),
        active: Set::empty(),
    }
}

/// The users that the configuration lets verify with the bot: the listed
/// ones or, where none is listed, those who are listed as inviters; and the
/// admins.
pub open spec fn configured_users(
    listed: Seq<Seq<char>>,
    inviters: Option<Set<Seq<char>>>,
    admins: Set<Seq<char>>,
) -> Set<Seq<char>> {
    let users = if listed.len() > 0 {
        config::valid_user_ids(listed)
    } else {
        match inviters {
            Some(set) => set,
            None => Set::empty(),
        }
    };
    users.union(admins)
}

/// What becomes of a request for `flow`.
pub open spec fn admission_of(service: ServiceView, flow: FlowView, terminal: bool) -> Admission {
    if terminal {
        Admission::Terminal
    } else {
        match reservation_of(service.active, flow) {
            Reservation::Duplicate => Admission::Duplicate,
            Reservation::Concurrent => Admission::Concurrent,
            Reservation::Reserved => if service.active.len() >= service.capacity {
                Admission::Full
            } else {
                Admission::Admitted
            },
        }
    }
}

/// The service after a request for `flow`.
pub open spec fn after_request(service: ServiceView, flow: FlowView, terminal: bool) -> ServiceView {
    if admission_of(service, flow, terminal) is Admitted {
        ServiceView { active: service.active.insert(flow), ..service }
    } else {
        service
    }
}

/// Whether the user may verify without a grant.
pub open spec fn is_allowed(service: ServiceView, user: Seq<char>, shares_room: bool) -> bool {
    service.allowed.contains(user) || (service.allow_joined_rooms && shares_room)
}

/// Whether a flow may go on: it needs no grant, or has one.
pub open spec fn is_authorized(
    service: ServiceView,
    user: Seq<char>,
    device: Option<Seq<char>>,
    trust: ExistingTrust,
    shares_room: bool,
    now: nat,
) -> bool {
    needs_grant(is_allowed(service, user, shares_room), trust) ==> any_matches(
        service.grants[user],
        device,
        now,
    )
}

/// The service after it was found out whether a flow may go on: a matching
/// grant is used up, and the expired ones are dropped.
pub open spec fn after_authorization(
    service: ServiceView,
    user: Seq<char>,
    device: Option<Seq<char>>,
    now: nat,
) -> ServiceView {
    ServiceView {
        grants: service.grants.insert(user, after_use(service.grants[user], device, now)),
        ..service
    }
}

/// Whether the bot may start a verification with a device.
pub open spec fn may_request(
    service: ServiceView,
    user: Seq<char>,
    device: Seq<char>,
    now: nat,
) -> bool {
    service.allowed.contains(user) || any_matches(service.grants[user], Some(device), now)
}

/// The service after it was found out whether the bot may start a
/// verification: the expired grants of a user who needs one are dropped.
pub open spec fn after_device_request(
    service: ServiceView,
    user: Seq<char>,
    now: nat,
) -> ServiceView {
    if service.allowed.contains(user) {
        service
    } else {
        ServiceView {
            grants: service.grants.insert(user, live_grants(service.grants[user], now)),
            ..service
        }
    }
}

/// The service after a flow ended.
pub open spec fn after_finish(service: ServiceView, flow: FlowView) -> ServiceView {
    ServiceView { active: service.active.remove(flow), ..service }
}

/// The decision on every SAS, where there is a standing one.
pub open spec fn approval_of(service: ServiceView) -> Option<ApprovalDecision> {
    if service.approves_all {
        Some(ApprovalDecision::Approve)
    } else {
        None
    }
}

/// The service with a new grant.
pub open spec fn granted(
    service: ServiceView,
    user: Seq<char>,
    device: Option<Seq<char>>,
    now: nat,
) -> ServiceView {
    let grant = GrantView { device_id: device, expires_at: now + service.grant_ttl };
    ServiceView {
        grants: service.grants.insert(user, service.grants[user].push(grant)),
        ..service
    }
}

/// Whether the point in time at which a grant expires can be written.
pub open spec fn can_grant(service: ServiceView, now: nat) -> bool {
    now + service.grant_ttl <= time::MAX_NANOS
}

impl VerificationService {
    #[verifier::type_invariant]
    spec fn consistent(self) -> bool {
        &&& one_per_user(self.active@)
        &&& self.active@.finite()
        &&& self.active@.len() <= capacity_of(self.settings.max_concurrent)
    }

    /// A service that asks an approval policy about each SAS.
    pub fn new(allowed_users: IdSet<OwnedUserId>, settings: VerificationSettings) -> (res: Self)
        ensures
            res@ == new_service(allowed_users@, false, settings, false),
    {
        let res = VerificationService {
            allowed_users,
            allow_joined_rooms: false,
            settings,
            approves_all: false,
            grants: Grants::new(),
            active: FlowSet::new(),
        };
        proof {
            lemma_no_grants(&res.grants);
        }
        res
    }

    /// Construct an explicitly allowlisted trust-on-first-use policy.
    pub fn allowlisted_tofu(
        allowed_users: IdSet<OwnedUserId>,
        settings: VerificationSettings,
    ) -> (res: Self)
        ensures
            res@ == new_service(allowed_users@, false, settings, true),
    {
        Self::tofu(allowed_users, false, settings)
    }

    /// A trust-on-first-use policy.
    fn tofu(
        allowed_users: IdSet<OwnedUserId>,
        allow_joined_rooms: bool,
        settings: VerificationSettings,
    ) -> (res: Self)
        ensures
            res@ == new_service(allowed_users@, allow_joined_rooms, settings, true),
    {
        let res = VerificationService {
            allowed_users,
            allow_joined_rooms,
            settings,
            approves_all: true,
            grants: Grants::new(),
            active: FlowSet::new(),
        };
        proof {
            lemma_no_grants(&res.grants);
        }
        res
    }

    /// The trust-on-first-use policy that `[security.verification]`
    /// describes.
    pub fn from_config(
        config: &VerificationConfig,
        inviters: &UserAllowList,
        admins: &IdSet<OwnedUserId>,
    ) -> (res: Self)
        ensures
            res@ == (ServiceView {
                allowed: configured_users(text::views(config.allowed_users@), inviters@, admins@),
                allow_joined_rooms: config.allow_users_from_joined_rooms,
                flow_timeout: config.flow_timeout_secs as nat * 1_000_000_000,
                grant_ttl: config.grant_ttl_secs as nat * 1_000_000_000,
                capacity: capacity_of(config.max_concurrent),
                approves_all: true,
                grants: no_grants(),
                active: Set::empty(),
            }),
    {
        let mut users: IdSet<OwnedUserId> = if config.allowed_users.len() > 0 {
            parse_user_ids("security.verification.allowed_users", &config.allowed_users)
        } else {
            match inviters {
                UserAllowList::Only(set) => set.clone(),
                UserAllowList::All => IdSet::new(),
            }
        };
        users.extend(admins);
        let settings = VerificationSettings {
            flow_timeout: Duration::from_secs(config.flow_timeout_secs),
            grant_ttl: Duration::from_secs(config.grant_ttl_secs),
            max_concurrent: config.max_concurrent,
        };
        Self::tofu(users, config.allow_users_from_joined_rooms, settings)
    }

    /// The users who may verify without a grant.
    pub fn allowed_users(&self) -> (res: &IdSet<OwnedUserId>)
        ensures
            res@ == self@.allowed,
    {
        &self.allowed_users
    }

    /// How long one flow may take.
    pub fn flow_timeout(&self) -> (res: Duration)
        ensures
            res@ == self@.flow_timeout,
    {
        self.settings.flow_timeout
    }

    /// How long a grant lasts.
    pub fn grant_ttl(&self) -> (res: Duration)
        ensures
            res@ == self@.grant_ttl,
    {
        self.settings.grant_ttl
    }

    /// Whether sharing a joined room with the bot allows a user to verify.
    pub fn allows_joined_rooms(&self) -> (res: bool)
        ensures
            res == self@.allow_joined_rooms,
    {
        self.allow_joined_rooms
    }

    /// The decision on every SAS, where there is a standing one; `None` where
    /// the approval policy is to be asked.
    pub fn standing_approval(&self) -> (res: Option<ApprovalDecision>)
        ensures
            res == approval_of(self@),
    {
        if self.approves_all {
            Some(ApprovalDecision::Approve)
        } else {
            None
        }
    }

    /// How many flows are under way.
    pub fn active_flows(&self) -> (res: usize)
        ensures
            res == self@.active.len(),
            self@.active.finite(),
            one_per_user(self@.active),
            res <= self@.capacity,
    {
        proof {
            use_type_invariant(self);
        }
        self.active.len()
    }

    /// Grant one user a single re-verification attempt for a bounded period.
    pub fn grant_user(&mut self, user_id: OwnedUserId, now: Duration)
        requires
            can_grant(old(self)@, now@),
        ensures
            final(self)@ == granted(old(self)@, user_id@, None, now@),
    {
        self.insert_grant(user_id, None, now);
    }

    /// Grant one specific device a single verification attempt.
    pub fn grant_device(&mut self, user_id: OwnedUserId, device_id: OwnedDeviceId, now: Duration)
        requires
            can_grant(old(self)@, now@),
        ensures
            final(self)@ == granted(old(self)@, user_id@, Some(device_id@), now@),
    {
        self.insert_grant(user_id, Some(device_id), now);
    }

    fn insert_grant(&mut self, user_id: OwnedUserId, device_id: Option<OwnedDeviceId>, now: Duration)
        requires
            can_grant(old(self)@, now@),
        ensures
            final(self)@ == granted(old(self)@, user_id@, text::option_view(device_id), now@),
    {
        proof {
            use_type_invariant(&*self);
        }
        let grant = VerificationGrant {
            device_id,
            expires_at: now.plus(self.settings.grant_ttl),
        };
        let mut grants = Grants::new();
        std::mem::swap(&mut grants, &mut self.grants);
        grants.insert(user_id, grant);
        self.grants = grants;
        proof {
            assert(self@.grants =~= granted(
                old(self)@,
                user_id@,
                text::option_view(device_id),
                now@,
            ).grants);
        }
    }

    /// Whether the bot may start a verification with the device: the user is
    /// allowed to verify, or has a matching grant.
    pub fn request_device_verification(
        &mut self,
        user_id: &OwnedUserId,
        device_id: &OwnedDeviceId,
        now: Duration,
    ) -> (res: Result<(), DeviceRequestError>)
        ensures
            res is Ok <==> may_request(old(self)@, user_id@, device_id@, now@),
            old(self)@.allowed.contains(user_id@) ==> res is Ok,
            res matches Err(error) ==> error is NotAllowed,
            final(self)@ == after_device_request(old(self)@, user_id@, now@),
    {
        if self.allowed_users.contains(user_id.as_str()) {
            return Ok(());
        }
        proof {
            use_type_invariant(&*self);
        }
        let mut grants = Grants::new();
        std::mem::swap(&mut grants, &mut self.grants);
        let granted = has_matching_grant(&mut grants, user_id, device_id, now);
        self.grants = grants;
        proof {
            assert(self@.grants =~= old(self)@.grants.insert(
                user_id@,
                live_grants(old(self)@.grants[user_id@], now@),
            ));
        }
        if granted {
            Ok(())
        } else {
            Err(DeviceRequestError::NotAllowed)
        }
    }

    /// Whether to handle a verification request. An admitted flow is under
    /// way until [`VerificationService::finish`] ends it.
    pub fn begin(&mut self, flow: &FlowKey, terminal: bool) -> (res: Admission)
        ensures
            res == admission_of(old(self)@, flow@, terminal),
            final(self)@ == after_request(old(self)@, flow@, terminal),
    {
        if terminal {
            return Admission::Terminal;
        }
        proof {
            use_type_invariant(&*self);
        }
        let slots = if self.settings.max_concurrent == 0 {
            1
        } else {
            self.settings.max_concurrent
        };
        let mut active = FlowSet::new();
        std::mem::swap(&mut active, &mut self.active);
        let ghost before = active@;
        let busy = active.len();
        let res = match reserve_flow(&mut active, flow) {
            Reservation::Duplicate => Admission::Duplicate,
            Reservation::Concurrent => Admission::Concurrent,
            Reservation::Reserved => {
                if busy >= slots {
                    active.remove(flow);
                    assert(active@ =~= before);
                    Admission::Full
                } else {
                    Admission::Admitted
                }
            },
        };
        self.active = active;
        res
    }

    /// Ends a flow.
    pub fn finish(&mut self, flow: &FlowKey)
        ensures
            final(self)@ == after_finish(old(self)@, flow@),
    {
        proof {
            use_type_invariant(&*self);
        }
        let mut active = FlowSet::new();
        std::mem::swap(&mut active, &mut self.active);
        active.remove(flow);
        self.active = active;
    }

    /// Whether a flow may go on. A matching grant is used up even where none
    /// is needed.
    pub fn authorize(
        &mut self,
        user_id: &OwnedUserId,
        device_id: Option<&OwnedDeviceId>,
        existing_trust: ExistingTrust,
        shares_room: bool,
        now: Duration,
    ) -> (res: bool)
        ensures
            res == is_authorized(
                old(self)@,
                user_id@,
                device_text(device_id),
                existing_trust,
                shares_room,
                now@,
            ),
            final(self)@ == after_authorization(
                old(self)@,
                user_id@,
                device_text(device_id),
                now@,
            ),
            existing_trust is Unverified && (old(self)@.allowed.contains(user_id@) || (old(
                self,
            )@.allow_joined_rooms && shares_room)) ==> res,
    {
        proof {
            use_type_invariant(&*self);
        }
        let allowed = self.allowed_users.contains(user_id.as_str()) || (self.allow_joined_rooms
            && shares_room);
        let needs_grant = authorization_requires_grant(allowed, existing_trust);
        let mut grants = Grants::new();
        std::mem::swap(&mut grants, &mut self.grants);
        let granted = consume_matching_grant(&mut grants, user_id, device_id, now);
        self.grants = grants;
        proof {
            assert(self@.grants =~= old(self)@.grants.insert(
                user_id@,
                after_use(old(self)@.grants[user_id@], device_text(device_id), now@),
            ));
        }
        !needs_grant || granted
    }
}

/// New grants are no grants for any user.
proof fn lemma_no_grants(grants: &Grants)
    requires
        forall|user: Seq<char>| (#[trigger] grants.of(user)).len() == 0,
    ensures
        Map::new(|user: Seq<char>| true, |user: Seq<char>| grants.of(user)) == no_grants(),
{
    let m = Map::new(|user: Seq<char>| true, |user: Seq<char>| grants.of(user));
    assert forall|user: Seq<char>| #[trigger] m[user] == no_grants()[user] by {
        assert(grants.of(user) =~= Seq::<GrantView>::empty());
    }
    assert(m =~= no_grants());
}

/// The service that handles a single request of a user who is allowed to
/// verify: with a grant where `reset_allowed`.
pub open spec fn single_user_service(user: Seq<char>, reset_allowed: bool, now: nat) -> ServiceView {
    ServiceView {
        allowed: set![user],
        allow_joined_rooms: false,
        flow_timeout: 300_000_000_000,
        grant_ttl: 600_000_000_000,
        capacity: 8,
        approves_all: true,
        grants: if reset_allowed {
            no_grants().insert(
                user,
                seq![GrantView { device_id: None, expires_at: now + 600_000_000_000 }],
            )
        } else {
            no_grants()
        },
        active: Set::empty(),
    }
}

/// The service that handles a single request of a user who is allowed to
/// verify: with a grant where `reset_allowed`.
pub fn service_for_user(user_id: &OwnedUserId, reset_allowed: bool, now: Duration) -> (res:
    VerificationService)
    requires
        reset_allowed ==> now@ + 600_000_000_000 <= time::MAX_NANOS,
    ensures
        res@ == single_user_service(user_id@, reset_allowed, now@),
{
    let mut allowed: IdSet<OwnedUserId> = IdSet::new();
    allowed.insert(user_id.clone());
    let mut service = VerificationService::allowlisted_tofu(
        allowed,
        VerificationSettings::default(),
    );
    if reset_allowed {
        service.grant_user(user_id.clone(), now);
        proof {
            let grant = GrantView { device_id: None, expires_at: now@ + 600_000_000_000 };
            assert(no_grants()[user_id@].push(grant) =~= seq![grant]);
        }
    }
    assert(service@ =~= single_user_service(user_id@, reset_allowed, now@));
    service
}

// Requests

/// The state of a verification request.
#[derive(Debug)]
pub enum RequestState {
    /// The bot sent the request.
    Created,
    /// The device sent the request.
    Requested(OwnedDeviceId),
    /// The device and the bot are ready to verify.
    Ready(OwnedDeviceId),
    /// A SAS verification with the device started.
    Sas(OwnedDeviceId),
    /// A verification by another method started.
    OtherMethod,
    Done,
    Cancelled,
}

/// The device on the other side, where the state of the request names it.
pub open spec fn device_of(state: RequestState) -> Option<Seq<char>> {
    match state {
        RequestState::Requested(device) => Some(device@),
        RequestState::Ready(device) => Some(device@),
        RequestState::Sas(device) => Some(device@),
        _ => None,
    }
}

/// The device on the other side, where the state of the request names it.
pub fn request_device_id(state: &RequestState) -> (res: Option<OwnedDeviceId>)
    ensures
        text::option_view(res) == device_of(*state),
{
    match state {
        RequestState::Requested(device) => Some(device.clone()),
        RequestState::Ready(device) => Some(device.clone()),
        RequestState::Sas(device) => Some(device.clone()),
        _ => None,
    }
}

/// The device that a flow is with: the one that the request names, else the
/// one that the bot meant to verify.
pub open spec fn device_for(named: Option<Seq<char>>, hint: Option<Seq<char>>) -> Option<
    Seq<char>,
> {
    match named {
        Some(device) => Some(device),
        None => hint,
    }
}

/// The device that a flow is with: the one that the request names, else the
/// one that the bot meant to verify.
pub fn flow_device(state: &RequestState, hint: Option<OwnedDeviceId>) -> (res: Option<
    OwnedDeviceId,
>)
    ensures
        text::option_view(res) == device_for(device_of(*state), text::option_view(hint)),
{
    match request_device_id(state) {
        Some(device) => Some(device),
        None => hint,
    }
}

/// What to do when an accepted request changes its state.
#[derive(Clone, Copy, Debug, PartialEq, Eq, Structural)]
pub enum RequestStep {
    /// Wait for the next change.
    Wait,
    /// Verify by SAS.
    StartSas,
    /// Cancel: the method is not supported.
    CancelUnsupported,
    /// The flow is over.
    End,
}

/// What to do when an accepted request changes its state.
pub open spec fn step_for(state: RequestState) -> RequestStep {
    match state {
        RequestState::Sas(_) => RequestStep::StartSas,
        RequestState::OtherMethod => RequestStep::CancelUnsupported,
        RequestState::Done | RequestState::Cancelled => RequestStep::End,
        _ => RequestStep::Wait,
    }
}

/// What to do when an accepted request changes its state.
pub fn request_step(state: &RequestState) -> (res: RequestStep)
    ensures
        res == step_for(*state),
{
    match state {
        RequestState::Sas(_) => RequestStep::StartSas,
        RequestState::OtherMethod => RequestStep::CancelUnsupported,
        RequestState::Done | RequestState::Cancelled => RequestStep::End,
        _ => RequestStep::Wait,
    }
}

// A flow

/// How far a flow has come.
#[derive(Clone, Copy, Debug, PartialEq, Eq, Structural)]
pub enum FlowPhase {
    /// It is being found out whether the flow may go on.
    Authorizing,
    /// The bot is accepting the request.
    Accepting,
    /// The bot waits for the request to change its state.
    Watching,
    /// A SAS verification is under way.
    Verifying,
    Ended,
}

/// What happens during a flow.
#[derive(Clone, Copy, Debug, PartialEq, Eq, Structural)]
pub enum FlowEvent {
    /// The flow may go on, or not.
    Authorized(bool),
    Accepted,
    AcceptFailed,
    /// The request changed its state, which calls for this.
    Changed(RequestStep),
    /// No more changes of state will come.
    StreamEnded,
    /// The SAS verification is over.
    SasOver,
}

/// What to do next in a flow.
#[derive(Clone, Copy, Debug, PartialEq, Eq, Structural)]
pub enum FlowAction {
    /// Wait for the next change.
    Wait,
    /// Accept the request.
    Accept,
    /// Verify by SAS.
    RunSas,
    /// Cancel the request, and stop.
    Cancel,
    /// Stop: the flow is over.
    Stop,
}

/// How an event moves a flow on, and what it calls for. An event that cannot
/// happen in a phase changes nothing.
pub open spec fn flow_transition(phase: FlowPhase, event: FlowEvent) -> (FlowPhase, FlowAction) {
    match (phase, event) {
        (FlowPhase::Ended, _) => (FlowPhase::Ended, FlowAction::Stop),
        (FlowPhase::Authorizing, FlowEvent::Authorized(allowed)) => if allowed {
            (FlowPhase::Accepting, FlowAction::Accept)
        } else {
            (FlowPhase::Ended, FlowAction::Cancel)
        },
        (FlowPhase::Accepting, FlowEvent::Accepted) => (FlowPhase::Watching, FlowAction::Wait),
        (FlowPhase::Accepting, FlowEvent::AcceptFailed) => (FlowPhase::Ended, FlowAction::Cancel),
        (FlowPhase::Watching, FlowEvent::Changed(step)) => match step {
            RequestStep::Wait => (FlowPhase::Watching, FlowAction::Wait),
            RequestStep::StartSas => (FlowPhase::Verifying, FlowAction::RunSas),
            RequestStep::CancelUnsupported => (FlowPhase::Ended, FlowAction::Cancel),
            RequestStep::End => (FlowPhase::Ended, FlowAction::Stop),
        },
        (FlowPhase::Watching, FlowEvent::StreamEnded) => (FlowPhase::Ended, FlowAction::Stop),
        (FlowPhase::Verifying, FlowEvent::SasOver) => (FlowPhase::Ended, FlowAction::Stop),
        (phase, _) => (phase, FlowAction::Wait),
    }
}

/// Moves a flow on.
pub fn flow_step(phase: FlowPhase, event: FlowEvent) -> (res: (FlowPhase, FlowAction))
    ensures
        res == flow_transition(phase, event),
{
    match phase {
        FlowPhase::Ended => (FlowPhase::Ended, FlowAction::Stop),
        FlowPhase::Authorizing => match event {
            FlowEvent::Authorized(allowed) => {
                if allowed {
                    (FlowPhase::Accepting, FlowAction::Accept)
                } else {
                    (FlowPhase::Ended, FlowAction::Cancel)
                }
            },
            _ => (phase, FlowAction::Wait),
        },
        FlowPhase::Accepting => match event {
            FlowEvent::Accepted => (FlowPhase::Watching, FlowAction::Wait),
            FlowEvent::AcceptFailed => (FlowPhase::Ended, FlowAction::Cancel),
            _ => (phase, FlowAction::Wait),
        },
        FlowPhase::Watching => match event {
            FlowEvent::Changed(RequestStep::StartSas) => (
                FlowPhase::Verifying,
                FlowAction::RunSas,
            ),
            FlowEvent::Changed(RequestStep::CancelUnsupported) => (
                FlowPhase::Ended,
                FlowAction::Cancel,
            ),
            FlowEvent::Changed(RequestStep::End) | FlowEvent::StreamEnded => (
                FlowPhase::Ended,
                FlowAction::Stop,
            ),
            _ => (phase, FlowAction::Wait),
        },
        FlowPhase::Verifying => match event {
            FlowEvent::SasOver => (FlowPhase::Ended, FlowAction::Stop),
            _ => (phase, FlowAction::Wait),
        },
    }
}

// SAS

/// How far a SAS verification has come.
#[derive(Clone, Copy, Debug, PartialEq, Eq, Structural)]
pub enum SasPhase {
    /// The bot is accepting the verification.
    Accepting,
    /// The keys are being exchanged.
    Exchanging,
    /// The approval policy is being asked.
    Deciding,
    /// The bot is confirming that the short strings match.
    Confirming,
    /// The bot has confirmed, and waits for the other side.
    Confirmed,
    Ended,
}

/// What happens during a SAS verification.
#[derive(Clone, Copy, Debug, PartialEq, Eq, Structural)]
pub enum SasEvent {
    Accepted,
    AcceptFailed,
    KeysExchanged,
    Decided(ApprovalDecision),
    ConfirmSent,
    ConfirmFailed,
    Done,
    Cancelled,
    /// A change of state that calls for nothing.
    OtherChange,
    /// No more changes of state will come.
    StreamEnded,
}

/// What to do next in a SAS verification.
#[derive(Clone, Copy, Debug, PartialEq, Eq, Structural)]
pub enum SasAction {
    /// Wait for the next change.
    Wait,
    /// Ask the approval policy.
    Ask,
    /// Confirm that the short strings match.
    Confirm,
    /// Cancel the verification, and stop.
    Cancel,
    /// Stop: the verification is over.
    Stop,
}

/// How an event moves a SAS verification on, and what it calls for. The
/// policy is asked once, when the keys are first exchanged. An event that
/// cannot happen in a phase changes nothing.
pub open spec fn sas_transition(phase: SasPhase, event: SasEvent) -> (SasPhase, SasAction) {
    match (phase, event) {
        (SasPhase::Ended, _) => (SasPhase::Ended, SasAction::Stop),
        (SasPhase::Accepting, SasEvent::Accepted) => (SasPhase::Exchanging, SasAction::Wait),
        (SasPhase::Accepting, SasEvent::AcceptFailed) => (SasPhase::Ended, SasAction::Cancel),
        (SasPhase::Exchanging, SasEvent::KeysExchanged) => (SasPhase::Deciding, SasAction::Ask),
        (SasPhase::Deciding, SasEvent::Decided(decision)) => match decision {
            ApprovalDecision::Approve => (SasPhase::Confirming, SasAction::Confirm),
            ApprovalDecision::Reject => (SasPhase::Ended, SasAction::Cancel),
        },
        (SasPhase::Confirming, SasEvent::ConfirmSent) => (SasPhase::Confirmed, SasAction::Wait),
        (SasPhase::Confirming, SasEvent::ConfirmFailed) => (SasPhase::Ended, SasAction::Cancel),
        (
            SasPhase::Exchanging | SasPhase::Confirmed,
            SasEvent::Done | SasEvent::Cancelled | SasEvent::StreamEnded,
        ) => (SasPhase::Ended, SasAction::Stop),
        (phase, _) => (phase, SasAction::Wait),
    }
}

/// Moves a SAS verification on.
pub fn sas_step(phase: SasPhase, event: SasEvent) -> (res: (SasPhase, SasAction))
    ensures
        res == sas_transition(phase, event),
{
    match phase {
        SasPhase::Ended => (SasPhase::Ended, SasAction::Stop),
        SasPhase::Accepting => match event {
            SasEvent::Accepted => (SasPhase::Exchanging, SasAction::Wait),
            SasEvent::AcceptFailed => (SasPhase::Ended, SasAction::Cancel),
            _ => (phase, SasAction::Wait),
        },
        SasPhase::Exchanging => match event {
            SasEvent::KeysExchanged => (SasPhase::Deciding, SasAction::Ask),
            SasEvent::Done | SasEvent::Cancelled | SasEvent::StreamEnded => (
                SasPhase::Ended,
                SasAction::Stop,
            ),
            _ => (phase, SasAction::Wait),
        },
        SasPhase::Deciding => match event {
            SasEvent::Decided(ApprovalDecision::Approve) => (
                SasPhase::Confirming,
                SasAction::Confirm,
            ),
            SasEvent::Decided(ApprovalDecision::Reject) => (SasPhase::Ended, SasAction::Cancel),
            _ => (phase, SasAction::Wait),
        },
        SasPhase::Confirming => match event {
            SasEvent::ConfirmSent => (SasPhase::Confirmed, SasAction::Wait),
            SasEvent::ConfirmFailed => (SasPhase::Ended, SasAction::Cancel),
            _ => (phase, SasAction::Wait),
        },
        SasPhase::Confirmed => match event {
            SasEvent::Done | SasEvent::Cancelled | SasEvent::StreamEnded => (
                SasPhase::Ended,
                SasAction::Stop,
            ),
            _ => (phase, SasAction::Wait),
        },
    }
}

/// Returns true for Matrix join errors that will not resolve with a retry.
/// `message` is the error as text.
pub fn is_join_terminal(message: &str) -> (res: bool)
    ensures
        res == rooms::is_terminal(message@),
{
    rooms::is_join_terminal(message)
}

// Laws

/// Each use takes a grant away: a user with `n` grants can verify at most
/// `n` times by them.
pub proof fn law_grants_are_used_up(list: Seq<GrantView>, device: Option<Seq<char>>, now: nat)
    requires
        any_matches(list, device, now),
    ensures
        after_use(list, device, now).len() < list.len(),
{
    lemma_live_grants(list, now);
    lemma_matches_are_live(list, device, now);
    lemma_first_match(live_grants(list, now), device, now);
}

/// A grant is good for a single use: whoever used their only grant has none
/// left, for any device and at any time.
pub proof fn law_a_grant_is_single_use(
    grant: GrantView,
    device: Option<Seq<char>>,
    now: nat,
    other: Option<Seq<char>>,
    later: nat,
)
    requires
        any_matches(seq![grant], device, now),
    ensures
        !any_matches(after_use(seq![grant], device, now), other, later),
{
    law_grants_are_used_up(seq![grant], device, now);
}

/// An expired grant never matches.
pub proof fn law_expired_grants_never_match(
    grant: GrantView,
    device: Option<Seq<char>>,
    now: nat,
)
    requires
        grant.expires_at <= now,
    ensures
        !grant_matches(grant, device, now),
{
}

/// A grant for one device matches that device alone.
pub proof fn law_device_grants_match_their_device(
    expected: Seq<char>,
    expires_at: nat,
    device: Option<Seq<char>>,
    now: nat,
)
    requires
        grant_matches(GrantView { device_id: Some(expected), expires_at }, device, now),
    ensures
        device == Some(expected),
{
}

/// A user who was granted a verification can start it, until the grant
/// expires: whatever the trust in them, and whatever their device.
pub proof fn law_granted_users_may_verify(
    service: ServiceView,
    user: Seq<char>,
    now: nat,
    device: Option<Seq<char>>,
    trust: ExistingTrust,
    shares_room: bool,
    later: nat,
)
    requires
        later < now + service.grant_ttl,
    ensures
        is_authorized(
            granted(service, user, None, now),
            user,
            device,
            trust,
            shares_room,
            later,
        ),
{
    let list = granted(service, user, None, now).grants[user];
    assert(grant_matches(list.last(), device, later));
    assert(list[list.len() - 1] == list.last());
}

/// A grant lets a user verify once. Whoever has no other grant, and needs
/// one, is refused the second time, at whatever time and with whatever
/// device.
pub proof fn law_a_granted_user_verifies_once(
    service: ServiceView,
    user: Seq<char>,
    grant_device: Option<Seq<char>>,
    granted_at: nat,
    device: Option<Seq<char>>,
    now: nat,
    other: Option<Seq<char>>,
    later: nat,
    trust: ExistingTrust,
    shares_room: bool,
)
    requires
        service.grants[user].len() == 0,
        needs_grant(is_allowed(service, user, shares_room), trust),
        is_authorized(
            granted(service, user, grant_device, granted_at),
            user,
            device,
            trust,
            shares_room,
            now,
        ),
    ensures
        ({
            let before = granted(service, user, grant_device, granted_at);
            let after = ServiceView {
                grants: before.grants.insert(user, after_use(before.grants[user], device, now)),
                ..before
            };
            !is_authorized(after, user, other, trust, shares_room, later)
        }),
{
    let before = granted(service, user, grant_device, granted_at);
    law_grants_are_used_up(before.grants[user], device, now);
}

/// Without a matching grant, only the first contact with an allowed user is
/// authorized.
pub proof fn law_only_first_contact_of_allowed_users_skips_a_grant(
    service: ServiceView,
    user: Seq<char>,
    device: Option<Seq<char>>,
    trust: ExistingTrust,
    shares_room: bool,
    now: nat,
)
    requires
        !any_matches(service.grants[user], device, now),
        is_authorized(service, user, device, trust, shares_room, now),
    ensures
        trust is Unverified,
        is_allowed(service, user, shares_room),
{
}

/// Admins may always verify with the bot.
pub proof fn law_admins_may_verify(
    listed: Seq<Seq<char>>,
    inviters: Option<Set<Seq<char>>>,
    admins: Set<Seq<char>>,
    user: Seq<char>,
)
    requires
        admins.contains(user),
    ensures
        configured_users(listed, inviters, admins).contains(user),
{
}

/// Whatever is requested, no user has two flows, and no more flows are under
/// way than the limit says.
pub proof fn law_flows_stay_bounded(service: ServiceView, flow: FlowView, terminal: bool)
    requires
        service.active.finite(),
        one_per_user(service.active),
        service.active.len() <= service.capacity,
    ensures
        one_per_user(after_request(service, flow, terminal).active),
        after_request(service, flow, terminal).active.finite(),
        after_request(service, flow, terminal).active.len() <= service.capacity,
{
}

/// A flow that was admitted and finished leaves the service as it was.
pub proof fn law_finished_flows_leave_no_trace(service: ServiceView, flow: FlowView)
    requires
        admission_of(service, flow, false) is Admitted,
    ensures
        after_request(service, flow, false).active.remove(flow) == service.active,
        after_finish(after_request(service, flow, false), flow) == service,
{
    assert(after_request(service, flow, false).active.remove(flow) =~= service.active);
}

/// The phase of a flow after a sequence of events.
pub open spec fn flow_phase_after(events: Seq<FlowEvent>) -> FlowPhase
    decreases events.len(),
{
    if events.len() == 0 {
        FlowPhase::Authorizing
    } else {
        flow_transition(flow_phase_after(events.drop_last()), events.last()).0
    }
}

/// How often a sequence of events calls for `action`.
pub open spec fn flow_actions(events: Seq<FlowEvent>, action: FlowAction) -> nat
    decreases events.len(),
{
    if events.len() == 0 {
        0
    } else {
        flow_actions(events.drop_last(), action) + if flow_transition(
            flow_phase_after(events.drop_last()),
            events.last(),
        ).1 == action {
            1nat
        } else {
            0nat
        }
    }
}

/// Whatever happens, a request is accepted at most once, and only after the
/// flow was authorized; and SAS is run at most once, and only for a request
/// that was accepted.
pub proof fn law_only_authorized_requests_are_accepted(events: Seq<FlowEvent>)
    ensures
        flow_actions(events, FlowAction::Accept) <= 1,
        flow_actions(events, FlowAction::RunSas) <= flow_actions(events, FlowAction::Accept),
        flow_actions(events, FlowAction::Accept) > 0 ==> events.contains(
            FlowEvent::Authorized(true),
        ),
        flow_actions(events, FlowAction::RunSas) > 0 ==> events.contains(FlowEvent::Accepted),
{
    lemma_flow(events);
}

proof fn lemma_flow(events: Seq<FlowEvent>)
    ensures
        ({
            let phase = flow_phase_after(events);
            let accepted = flow_actions(events, FlowAction::Accept);
            let run = flow_actions(events, FlowAction::RunSas);
            &&& accepted <= 1
            &&& run <= accepted
            &&& phase is Authorizing ==> accepted == 0
            &&& phase is Accepting ==> accepted == 1 && run == 0
            &&& phase is Watching ==> accepted == 1 && run == 0 && events.contains(
                FlowEvent::Accepted,
            )
            &&& accepted > 0 ==> events.contains(FlowEvent::Authorized(true))
            &&& run > 0 ==> events.contains(FlowEvent::Accepted)
        }),
    decreases events.len(),
{
    if events.len() > 0 {
        let shorter = events.drop_last();
        lemma_flow(shorter);
        assert(events[events.len() - 1] == events.last());
        if shorter.contains(FlowEvent::Authorized(true)) {
            let k = choose|k: int|
                0 <= k < shorter.len() && shorter[k] == FlowEvent::Authorized(true);
            assert(events[k] == FlowEvent::Authorized(true));
        }
        if shorter.contains(FlowEvent::Accepted) {
            let k = choose|k: int| 0 <= k < shorter.len() && shorter[k] == FlowEvent::Accepted;
            assert(events[k] == FlowEvent::Accepted);
        }
    }
}

/// The phase of a SAS verification after a sequence of events.
pub open spec fn sas_phase_after(events: Seq<SasEvent>) -> SasPhase
    decreases events.len(),
{
    if events.len() == 0 {
        SasPhase::Accepting
    } else {
        sas_transition(sas_phase_after(events.drop_last()), events.last()).0
    }
}

/// How often a sequence of events calls for `action`.
pub open spec fn sas_actions(events: Seq<SasEvent>, action: SasAction) -> nat
    decreases events.len(),
{
    if events.len() == 0 {
        0
    } else {
        sas_actions(events.drop_last(), action) + if sas_transition(
            sas_phase_after(events.drop_last()),
            events.last(),
        ).1 == action {
            1nat
        } else {
            0nat
        }
    }
}

/// Whatever happens, the policy is asked at most once, the bot confirms at
/// most once, and only after the policy approved.
pub proof fn law_only_approved_strings_are_confirmed(events: Seq<SasEvent>)
    ensures
        sas_actions(events, SasAction::Ask) <= 1,
        sas_actions(events, SasAction::Confirm) <= sas_actions(events, SasAction::Ask),
        sas_actions(events, SasAction::Confirm) > 0 ==> events.contains(
            SasEvent::Decided(ApprovalDecision::Approve),
        ),
{
    lemma_sas(events);
}

proof fn lemma_sas(events: Seq<SasEvent>)
    ensures
        ({
            let phase = sas_phase_after(events);
            let asked = sas_actions(events, SasAction::Ask);
            let confirmed = sas_actions(events, SasAction::Confirm);
            &&& asked <= 1
            &&& confirmed <= asked
            &&& phase is Accepting || phase is Exchanging ==> asked == 0
            &&& phase is Deciding ==> asked == 1 && confirmed == 0
            &&& phase is Confirming || phase is Confirmed ==> asked == 1 && confirmed == 1
            &&& confirmed > 0 ==> events.contains(SasEvent::Decided(ApprovalDecision::Approve))
        }),
    decreases events.len(),
{
    if events.len() > 0 {
        let shorter = events.drop_last();
        lemma_sas(shorter);
        let approval = SasEvent::Decided(ApprovalDecision::Approve);
        assert(events[events.len() - 1] == events.last());
        if shorter.contains(approval) {
            let k = choose|k: int| 0 <= k < shorter.len() && shorter[k] == approval;
            assert(events[k] == approval);
        }
    }
}

/// The first contact with an allowed user needs no grant: whoever is listed,
/// or shares a joined room with the bot where that is enough, is authorized
/// as long as there is no trust in them yet. Whether their device is known,
/// what grants there are and what time it is makes no difference.
pub proof fn law_first_contact_of_allowed_users_is_authorized(
    service: ServiceView,
    user: Seq<char>,
    device: Option<Seq<char>>,
    shares_room: bool,
    now: nat,
)
    requires
        service.allowed.contains(user) || (service.allow_joined_rooms && shares_room),
    ensures
        is_authorized(service, user, device, ExistingTrust::Unverified, shares_room, now),
{
}

/// A flow may go on if and only if it is the first contact with an allowed
/// user, or the user has a grant that has not expired and is for any device
/// or for this one.
pub proof fn law_who_is_authorized(
    service: ServiceView,
    user: Seq<char>,
    device: Option<Seq<char>>,
    trust: ExistingTrust,
    shares_room: bool,
    now: nat,
)
    ensures
        is_authorized(service, user, device, trust, shares_room, now) <==> {
            ||| trust is Unverified && service.allowed.contains(user)
            ||| trust is Unverified && service.allow_joined_rooms && shares_room
            ||| exists|i: int|
                0 <= i < service.grants[user].len() && now < (
                #[trigger] service.grants[user][i]).expires_at && (
                service.grants[user][i].device_id is None || service.grants[user][i].device_id
                    == device)
        },
{
    let list = service.grants[user];
    if any_matches(list, device, now) {
        let i = choose|i: int| 0 <= i < list.len() && grant_matches(#[trigger] list[i], device, now);
        assert(now < list[i].expires_at);
    }
    if exists|i: int|
        0 <= i < list.len() && now < (#[trigger] list[i]).expires_at && (list[i].device_id is None
            || list[i].device_id == device) {
        let i = choose|i: int|
            0 <= i < list.len() && now < (#[trigger] list[i]).expires_at && (
            list[i].device_id is None || list[i].device_id == device);
        assert(grant_matches(list[i], device, now));
    }
}

/// The bot may start a verification with a device if and only if its user is
/// listed, or has a grant that has not expired and is for any device or for
/// this one.
pub proof fn law_which_devices_may_be_asked(
    service: ServiceView,
    user: Seq<char>,
    device: Seq<char>,
    now: nat,
)
    ensures
        may_request(service, user, device, now) <==> {
            ||| service.allowed.contains(user)
            ||| exists|i: int|
                0 <= i < service.grants[user].len() && now < (
                #[trigger] service.grants[user][i]).expires_at && (
                service.grants[user][i].device_id is None || service.grants[user][i].device_id
                    == Some(device))
        },
{
    let list = service.grants[user];
    if any_matches(list, Some(device), now) {
        let i = choose|i: int|
            0 <= i < list.len() && grant_matches(#[trigger] list[i], Some(device), now);
        assert(now < list[i].expires_at);
    }
    if exists|i: int|
        0 <= i < list.len() && now < (#[trigger] list[i]).expires_at && (list[i].device_id is None
            || list[i].device_id == Some(device)) {
        let i = choose|i: int|
            0 <= i < list.len() && now < (#[trigger] list[i]).expires_at && (
            list[i].device_id is None || list[i].device_id == Some(device));
        assert(grant_matches(list[i], Some(device), now));
    }
}

/// A grant for a device lets that device verify until it expires, and may be
/// used to start the verification. Where a grant is needed and there is no
/// other, it lets no other device verify, none whose name is not known, and
/// none at all once it has expired.
pub proof fn law_granted_devices_may_verify(
    service: ServiceView,
    user: Seq<char>,
    device: Seq<char>,
    now: nat,
    other: Option<Seq<char>>,
    trust: ExistingTrust,
    shares_room: bool,
    later: nat,
)
    ensures
        ({
            let after = granted(service, user, Some(device), now);
            &&& later < now + service.grant_ttl ==> is_authorized(
                after,
                user,
                Some(device),
                trust,
                shares_room,
                later,
            )
            &&& later < now + service.grant_ttl ==> may_request(after, user, device, later)
            &&& trust !is Unverified && service.grants[user].len() == 0 && (other != Some(device)
                || later >= now + service.grant_ttl) ==> !is_authorized(
                after,
                user,
                other,
                trust,
                shares_room,
                later,
            )
        }),
{
    let after = granted(service, user, Some(device), now);
    let list = after.grants[user];
    let last = list.len() - 1;
    if later < now + service.grant_ttl {
        assert(list[last].expires_at == now + service.grant_ttl);
    }
    law_who_is_authorized(after, user, Some(device), trust, shares_room, later);
    law_which_devices_may_be_asked(after, user, device, later);
    law_who_is_authorized(after, user, other, trust, shares_room, later);
}

/// Once a grant has expired it no longer helps: whoever needs one and has no
/// other is refused from then on.
pub proof fn law_grants_expire(
    service: ServiceView,
    user: Seq<char>,
    now: nat,
    device: Option<Seq<char>>,
    trust: ExistingTrust,
    shares_room: bool,
    later: nat,
)
    requires
        service.grants[user].len() == 0,
        trust !is Unverified || !(service.allowed.contains(user) || (service.allow_joined_rooms
            && shares_room)),
        now + service.grant_ttl <= later,
    ensures
        !is_authorized(
            granted(service, user, None, now),
            user,
            device,
            trust,
            shares_room,
            later,
        ),
{
    law_who_is_authorized(
        granted(service, user, None, now),
        user,
        device,
        trust,
        shares_room,
        later,
    );
}

/// Granting and using grants concerns one user: the grants of all others, who
/// is allowed, and the flows under way stay as they are. A new grant leaves
/// the user's older ones in place.
pub proof fn law_grants_concern_one_user(
    service: ServiceView,
    user: Seq<char>,
    device: Option<Seq<char>>,
    now: nat,
    other: Seq<char>,
)
    requires
        other != user,
    ensures
        granted(service, user, device, now).grants[other] == service.grants[other],
        granted(service, user, device, now).allowed == service.allowed,
        granted(service, user, device, now).allow_joined_rooms == service.allow_joined_rooms,
        granted(service, user, device, now).active == service.active,
        granted(service, user, device, now).grants[user].drop_last() == service.grants[user],
        after_authorization(service, user, device, now).grants[other] == service.grants[other],
        after_authorization(service, user, device, now).allowed == service.allowed,
        after_authorization(service, user, device, now).allow_joined_rooms
            == service.allow_joined_rooms,
        after_authorization(service, user, device, now).active == service.active,
        after_authorization(service, user, device, now).grant_ttl == service.grant_ttl,
        after_authorization(service, user, device, now).capacity == service.capacity,
        after_authorization(service, user, device, now).approves_all == service.approves_all,
        after_authorization(service, user, device, now).flow_timeout == service.flow_timeout,
{
    assert(granted(service, user, device, now).grants[user].drop_last()
        =~= service.grants[user]);
}

/// The grants that have not expired are those whose end is still to come, in
/// their order.
pub proof fn law_live_grants_end_later(list: Seq<GrantView>, now: nat)
    ensures
        live_grants(list, now) == list.filter(|grant: GrantView| now < grant.expires_at),
    decreases list.len(),
{
    reveal(Seq::filter);
    let live = |grant: GrantView| now < grant.expires_at;
    if list.len() > 0 {
        let rest = list.drop_first();
        law_live_grants_end_later(rest, now);
        let first = seq![list[0]];
        assert(list =~= first + rest);
        Seq::filter_distributes_over_add(first, rest, live);
        assert(first.drop_last() =~= Seq::<GrantView>::empty());
        reveal_with_fuel(Seq::filter, 2);
        assert(first.filter(live) =~= if live(list[0]) {
            first
        } else {
            Seq::<GrantView>::empty()
        });
        assert(live_grants(list, now) =~= list.filter(live));
    }
}

/// Authorizing uses up the oldest matching grant and no other: of the grants
/// that have not expired, all those before it, none of which matches, and all
/// those after it stay. Where none matches, all of them stay.
pub proof fn law_the_oldest_matching_grant_is_used(
    list: Seq<GrantView>,
    device: Option<Seq<char>>,
    now: nat,
)
    ensures
        ({
            let live = list.filter(|grant: GrantView| now < grant.expires_at);
            let after = after_use(list, device, now);
            let good = |grant: GrantView| grant.device_id is None || grant.device_id == device;
            ||| after == live && forall|i: int|
                0 <= i < live.len() ==> !good(#[trigger] live[i])
            ||| exists|n: int|
                0 <= n < live.len() && #[trigger] good(live[n]) && after == live.remove(n) && (
                forall|i: int| 0 <= i < n ==> !good(#[trigger] live[i]))
        }),
{
    let live = live_grants(list, now);
    law_live_grants_end_later(list, now);
    lemma_live_grants(list, now);
    lemma_first_match(live, device, now);
    let good = |grant: GrantView| grant.device_id is None || grant.device_id == device;
    let n = first_match(live, device, now);
    assert forall|i: int| 0 <= i < live.len() implies now < (#[trigger] live[i]).expires_at by {
        assert(live.contains(live[i]));
    }
    lemma_first_match_is_first(live, device, now);
    if n < live.len() {
        assert(good(live[n]));
    }
}

/// Before the first match nothing matches.
proof fn lemma_first_match_is_first(list: Seq<GrantView>, device: Option<Seq<char>>, now: nat)
    ensures
        0 <= first_match(list, device, now) <= list.len(),
        forall|i: int|
            0 <= i < first_match(list, device, now) ==> !grant_matches(
                #[trigger] list[i],
                device,
                now,
            ),
        first_match(list, device, now) < list.len() ==> grant_matches(
            list[first_match(list, device, now)],
            device,
            now,
        ),
    decreases list.len(),
{
    if list.len() > 0 && !grant_matches(list[0], device, now) {
        let rest = list.drop_first();
        lemma_first_match_is_first(rest, device, now);
        assert forall|i: int|
            0 <= i < first_match(list, device, now) implies !grant_matches(
            #[trigger] list[i],
            device,
            now,
        ) by {
            if i > 0 {
                assert(rest[i - 1] == list[i]);
            }
        }
    }
}

/// Which users the configuration lets verify: the admins in any case, the
/// valid ones of those who are listed and, where nobody is listed, the users
/// on an explicit list of inviters.
pub proof fn law_who_is_configured(
    listed: Seq<Seq<char>>,
    inviters: Option<Set<Seq<char>>>,
    admins: Set<Seq<char>>,
    user: Seq<char>,
)
    ensures
        configured_users(listed, inviters, admins).contains(user) <==> {
            ||| admins.contains(user)
            ||| listed.contains(user) && ids::user_id_error(user) is None
            ||| listed.len() == 0 && inviters is Some && (inviters->0).contains(user)
        },
{
}

/// A request is admitted if and only if it is still open, its user has no flow
/// under way, and fewer flows are under way than may be. One that is refused
/// is a duplicate, one too many of its user, or one too many at all.
pub proof fn law_which_requests_are_admitted(service: ServiceView, flow: FlowView, terminal: bool)
    ensures
        ({
            let admission = admission_of(service, flow, terminal);
            let busy = exists|other: FlowView| #[trigger]
                service.active.contains(other) && other.user == flow.user;
            &&& admission is Terminal <==> terminal
            &&& admission is Duplicate <==> !terminal && service.active.contains(flow)
            &&& admission is Concurrent <==> !terminal && busy && !service.active.contains(flow)
            &&& admission is Full <==> !terminal && !busy && service.capacity
                <= service.active.len()
            &&& admission is Admitted <==> !terminal && !busy && service.active.len()
                < service.capacity
            &&& admission is Admitted ==> after_request(service, flow, terminal).active
                == service.active.insert(flow)
            &&& admission !is Admitted ==> after_request(service, flow, terminal) == service
            &&& after_request(service, flow, terminal).grants == service.grants
            &&& after_request(service, flow, terminal).allowed == service.allowed
        }),
{
}

/// Reserving a flow twice makes the second one a duplicate; another flow of
/// the same user is one too many; and a flow of another user is not affected.
pub proof fn law_reservations(flows: Set<FlowView>, flow: FlowView, other: FlowView)
    requires
        reservation_of(flows, flow) is Reserved,
        other != flow,
    ensures
        after_reservation(flows, flow).contains(flow),
        reservation_of(after_reservation(flows, flow), flow) is Duplicate,
        other.user == flow.user ==> reservation_of(after_reservation(flows, flow), other) is Concurrent,
        other.user != flow.user ==> reservation_of(after_reservation(flows, flow), other)
            == reservation_of(flows, other),
        after_reservation(flows, flow).contains(other) == flows.contains(other),
{
    let after = after_reservation(flows, flow);
    assert(after.contains(flow));
    if other.user == flow.user {
        assert(has_flow(after, other.user));
        assert(!flows.contains(other)) by {
            if flows.contains(other) {
                assert(has_flow(flows, flow.user));
            }
        }
    } else {
        if has_flow(flows, other.user) {
            let x = choose|x: FlowView| #[trigger] flows.contains(x) && x.user == other.user;
            assert(after.contains(x));
        }
        if has_flow(after, other.user) {
            let x = choose|x: FlowView| #[trigger] after.contains(x) && x.user == other.user;
            assert(flows.contains(x));
        }
    }
}

/// A new service admits the first request of anyone, whatever its limit: a
/// limit of zero counts as one, and any other limit counts as it is.
pub proof fn law_new_services_admit(
    allowed: Set<Seq<char>>,
    allow_joined_rooms: bool,
    settings: VerificationSettings,
    approves_all: bool,
    flow: FlowView,
)
    ensures
        ({
            let service = new_service(allowed, allow_joined_rooms, settings, approves_all);
            &&& admission_of(service, flow, false) is Admitted
            &&& service.capacity >= 1
            &&& settings.max_concurrent >= 1 ==> service.capacity == settings.max_concurrent
            &&& settings.max_concurrent == 0 ==> service.capacity == 1
            &&& service.allowed == allowed
            &&& service.allow_joined_rooms == allow_joined_rooms
            &&& service.approves_all == approves_all
            &&& service.grant_ttl == settings.grant_ttl@
            &&& service.flow_timeout == settings.flow_timeout@
            &&& forall|user: Seq<char>| (#[trigger] service.grants[user]).len() == 0
        }),
{
    assert(Set::<FlowView>::empty().len() == 0);
}

/// Trust is only found where an identity is known: it is verified exactly
/// where it is and no violation is known, and a violation outweighs that.
/// Where the lookup failed, the user needs a grant.
pub proof fn law_trust_is_found_cautiously(lookup: IdentityLookup, allowed: bool)
    ensures
        trust_of(lookup) is Verified <==> lookup == (IdentityLookup::Known {
            violation: false,
            verified: true,
        }),
        trust_of(lookup) is Unverified <==> lookup is Unknown || lookup == (IdentityLookup::Known {
            violation: false,
            verified: false,
        }),
        lookup is Failed ==> needs_grant(allowed, trust_of(lookup)),
        lookup matches IdentityLookup::Known { violation, .. } && violation ==> needs_grant(
            allowed,
            trust_of(lookup),
        ),
        needs_grant(allowed, trust_of(lookup)) <==> !(allowed && trust_of(lookup) is Unverified),
{
}

/// The device that a request names counts, whatever the bot meant to verify;
/// what the bot meant counts where the request names none.
pub proof fn law_the_request_names_the_device(
    state: RequestState,
    device: OwnedDeviceId,
    hint: Option<Seq<char>>,
)
    ensures
        device_for(device_of(RequestState::Requested(device)), hint) == Some(device@),
        device_for(device_of(RequestState::Ready(device)), hint) == Some(device@),
        device_for(device_of(RequestState::Sas(device)), hint) == Some(device@),
        state is Created || state is OtherMethod || state is Done || state is Cancelled
            ==> device_for(device_of(state), hint) == hint,
{
}

/// A flow that may go on is accepted, and one that may not is cancelled; a
/// request that could not be accepted is cancelled too.
pub proof fn law_flows_start_as_authorized()
    ensures
        flow_phase_after(seq![]) is Authorizing,
        flow_transition(FlowPhase::Authorizing, FlowEvent::Authorized(true)).1 is Accept,
        flow_transition(FlowPhase::Authorizing, FlowEvent::Authorized(false)) == (
            FlowPhase::Ended,
            FlowAction::Cancel,
        ),
        flow_transition(
            flow_transition(FlowPhase::Authorizing, FlowEvent::Authorized(true)).0,
            FlowEvent::AcceptFailed,
        ) == (FlowPhase::Ended, FlowAction::Cancel),
{
}

/// The events of a flow that is authorized and accepted, and whose request
/// then changes its state.
pub open spec fn accepted_flow(states: Seq<RequestState>) -> Seq<FlowEvent> {
    seq![FlowEvent::Authorized(true), FlowEvent::Accepted] + Seq::new(
        states.len(),
        |i: int| FlowEvent::Changed(step_for(states[i])),
    )
}

/// An accepted request is accepted once and followed through as many changes
/// as it takes, with nothing done but waiting: SAS is run as soon as it
/// starts, another method is cancelled, and the flow stops where the request
/// is done or cancelled or no more changes come.
pub proof fn law_accepted_flows_go_on(states: Seq<RequestState>, device: OwnedDeviceId)
    requires
        forall|i: int|
            0 <= i < states.len() ==> (#[trigger] states[i]) is Created || states[i] is Requested
                || states[i] is Ready,
    ensures
        ({
            let phase = flow_phase_after(accepted_flow(states));
            &&& flow_actions(accepted_flow(states), FlowAction::Accept) == 1
            &&& flow_actions(accepted_flow(states), FlowAction::Wait) == states.len() + 1
            &&& flow_transition(
                phase,
                FlowEvent::Changed(step_for(RequestState::Sas(device))),
            ).1 is RunSas
            &&& flow_transition(phase, FlowEvent::Changed(step_for(RequestState::OtherMethod)))
                == (FlowPhase::Ended, FlowAction::Cancel)
            &&& flow_transition(phase, FlowEvent::Changed(step_for(RequestState::Done))) == (
                FlowPhase::Ended,
                FlowAction::Stop,
            )
            &&& flow_transition(phase, FlowEvent::Changed(step_for(RequestState::Cancelled))) == (
                FlowPhase::Ended,
                FlowAction::Stop,
            )
            &&& flow_transition(phase, FlowEvent::StreamEnded) == (
                FlowPhase::Ended,
                FlowAction::Stop,
            )
            &&& flow_transition(
                flow_transition(phase, FlowEvent::Changed(step_for(RequestState::Sas(device)))).0,
                FlowEvent::SasOver,
            ) == (FlowPhase::Ended, FlowAction::Stop)
        }),
{
    lemma_accepted_flow(states);
}

/// An accepted request is being watched as long as nothing starts or ends.
proof fn lemma_accepted_flow(states: Seq<RequestState>)
    requires
        forall|i: int|
            0 <= i < states.len() ==> (#[trigger] states[i]) is Created || states[i] is Requested
                || states[i] is Ready,
    ensures
        flow_phase_after(accepted_flow(states)) is Watching,
        flow_actions(accepted_flow(states), FlowAction::Wait) == states.len() + 1,
        flow_actions(accepted_flow(states), FlowAction::Accept) == 1,
    decreases states.len(),
{
    let events = accepted_flow(states);
    if states.len() == 0 {
        reveal_with_fuel(flow_phase_after, 3);
        reveal_with_fuel(flow_actions, 3);
        assert(events =~= seq![FlowEvent::Authorized(true), FlowEvent::Accepted]);
        assert(events.drop_last() =~= seq![FlowEvent::Authorized(true)]);
        assert(seq![FlowEvent::Authorized(true)].drop_last() =~= Seq::<FlowEvent>::empty());
    } else {
        lemma_accepted_flow(states.drop_last());
        assert(events.drop_last() =~= accepted_flow(states.drop_last()));
        assert(events.last() == FlowEvent::Changed(step_for(states.last())));
        assert(states[states.len() - 1] == states.last());
    }
}

/// A flow that has ended stays so, and nothing more is done for it. Until
/// then an event that does not belong to its phase changes nothing.
pub proof fn law_ended_flows_stay_ended(event: FlowEvent, phase: FlowPhase)
    ensures
        flow_transition(FlowPhase::Ended, event) == (FlowPhase::Ended, FlowAction::Stop),
        phase is Authorizing && event !is Authorized ==> flow_transition(phase, event) == (
            phase,
            FlowAction::Wait,
        ),
        phase is Accepting && event !is Accepted && event !is AcceptFailed ==> flow_transition(
            phase,
            event,
        ) == (phase, FlowAction::Wait),
        phase is Watching && event !is Changed && event !is StreamEnded ==> flow_transition(
            phase,
            event,
        ) == (phase, FlowAction::Wait),
        phase is Verifying && event !is SasOver ==> flow_transition(phase, event) == (
            phase,
            FlowAction::Wait,
        ),
{
}

/// The events of a SAS verification that was accepted, and of the changes
/// that follow until the keys are exchanged.
pub open spec fn accepted_sas(waits: nat) -> Seq<SasEvent> {
    seq![SasEvent::Accepted] + Seq::new(waits, |i: int| SasEvent::OtherChange)
}

/// However long it takes until the keys are exchanged, the policy is then
/// asked. Where it approves, the bot confirms, does not ask again, and stops
/// when the other side is done; where it rejects, the bot cancels.
pub proof fn law_sas_goes_as_the_policy_decides(waits: nat, event: SasEvent)
    ensures
        ({
            let phase = sas_phase_after(accepted_sas(waits));
            let (asked, ask) = sas_transition(phase, SasEvent::KeysExchanged);
            let (confirming, confirm) = sas_transition(
                asked,
                SasEvent::Decided(ApprovalDecision::Approve),
            );
            let confirmed = sas_transition(confirming, SasEvent::ConfirmSent).0;
            &&& sas_actions(accepted_sas(waits), SasAction::Wait) == waits + 1
            &&& ask is Ask
            &&& confirm is Confirm
            &&& sas_transition(asked, SasEvent::Decided(ApprovalDecision::Reject)) == (
                SasPhase::Ended,
                SasAction::Cancel,
            )
            &&& sas_transition(confirming, SasEvent::ConfirmSent).1 is Wait
            &&& sas_transition(confirming, SasEvent::ConfirmFailed) == (
                SasPhase::Ended,
                SasAction::Cancel,
            )
            &&& sas_transition(confirmed, SasEvent::KeysExchanged) == (confirmed, SasAction::Wait)
            &&& sas_transition(confirmed, SasEvent::OtherChange) == (confirmed, SasAction::Wait)
            &&& event is Done || event is Cancelled || event is StreamEnded ==> {
                &&& sas_transition(confirmed, event) == (SasPhase::Ended, SasAction::Stop)
                &&& sas_transition(phase, event) == (SasPhase::Ended, SasAction::Stop)
            }
            &&& sas_transition(SasPhase::Ended, event) == (SasPhase::Ended, SasAction::Stop)
            &&& sas_transition(SasPhase::Accepting, SasEvent::AcceptFailed) == (
                SasPhase::Ended,
                SasAction::Cancel,
            )
            &&& event !is Decided ==> sas_transition(asked, event) == (asked, SasAction::Wait)
            &&& event !is ConfirmSent && event !is ConfirmFailed ==> sas_transition(
                confirming,
                event,
            ) == (confirming, SasAction::Wait)
            &&& event !is Accepted && event !is AcceptFailed ==> sas_transition(
                SasPhase::Accepting,
                event,
            ) == (SasPhase::Accepting, SasAction::Wait)
            &&& event !is Done && event !is Cancelled && event !is StreamEnded ==> {
                &&& sas_transition(confirmed, event) == (confirmed, SasAction::Wait)
                &&& event !is KeysExchanged ==> sas_transition(phase, event) == (
                    phase,
                    SasAction::Wait,
                )
            }
        }),
{
    lemma_accepted_sas(waits);
}

/// An accepted SAS verification waits for the keys.
proof fn lemma_accepted_sas(waits: nat)
    ensures
        sas_phase_after(accepted_sas(waits)) is Exchanging,
        sas_actions(accepted_sas(waits), SasAction::Wait) == waits + 1,
    decreases waits,
{
    let events = accepted_sas(waits);
    if waits == 0 {
        reveal_with_fuel(sas_phase_after, 2);
        reveal_with_fuel(sas_actions, 2);
        assert(events =~= seq![SasEvent::Accepted]);
        assert(events.drop_last() =~= Seq::<SasEvent>::empty());
    } else {
        lemma_accepted_sas((waits - 1) as nat);
        assert(events.drop_last() =~= accepted_sas((waits - 1) as nat));
        assert(events.last() is OtherChange);
    }
}

/// As many flows are handled at once as the settings say, and one where they
/// say none.
pub proof fn law_capacity(max_concurrent: usize)
    ensures
        max_concurrent >= 1 ==> capacity_of(max_concurrent) == max_concurrent,
        capacity_of(0) == 1,
{
}

/// Each state of trust has a word of its own.
pub proof fn law_trust_is_told_apart(a: ExistingTrust, b: ExistingTrust)
    ensures
        trust_words(a) == trust_words(b) ==> a == b,
{
    reveal_strlit("verified");
    reveal_strlit("not verified");
    reveal_strlit("verification violation");
    assert("verified"@.len() == 8);
    assert("not verified"@.len() == 12);
    assert("verification violation"@.len() == 22);
}

/// What a grant, a flow, a transport and a challenge say is what they hold.
pub proof fn law_verification_data_is_seen_as_it_is(
    grant: VerificationGrant,
    flow: FlowKey,
    room: OwnedRoomId,
    challenge: SasChallenge,
    device: &OwnedDeviceId,
)
    ensures
        grant@.device_id is Some <==> grant.device_id is Some,
        grant.device_id is Some ==> grant@.device_id->0 == (grant.device_id->0)@,
        grant@.expires_at == grant.expires_at@,
        flow@.user == flow.user_id@,
        flow@.flow == flow.flow_id@,
        VerificationTransport::InRoom(room)@ == Some(room@),
        VerificationTransport::ToDevice@ is None,
        challenge@.user == challenge.user_id@,
        challenge@.device == challenge.device_id@,
        challenge@.room == challenge.transport@,
        challenge@.existing_trust == challenge.existing_trust,
        challenge@.decimals == challenge.decimals,
        challenge@.emojis is Some <==> challenge.emojis is Some,
        challenge.emojis is Some ==> (challenge@.emojis->0).len() == (challenge.emojis->0)@.len(),
        device_text(Some(device)) == Some(device@),
        device_text(None) is None,
{
}

/// The emojis of a challenge are each its symbol and its description, in
/// order.
pub proof fn law_emojis_are_seen_as_they_are(emojis: Seq<(String, String)>, i: int)
    requires
        0 <= i < emojis.len(),
    ensures
        emoji_views(emojis).len() == emojis.len(),
        emoji_views(emojis)[i] == (emojis[i].0@, emojis[i].1@),
{
}

/// Finding out whether a flow may go on uses up one grant of the user that
/// permits it, the oldest, and drops the expired ones; it changes nothing
/// else.
pub proof fn law_authorizing_uses_up_one_grant(
    service: ServiceView,
    user: Seq<char>,
    device: Option<Seq<char>>,
    now: nat,
    other: Seq<char>,
)
    requires
        service.grants.contains_key(user),
        other != user,
    ensures
        ({
            let after = after_authorization(service, user, device, now);
            let live = live_grants(service.grants[user], now);
            &&& any_matches(service.grants[user], device, now) ==> after.grants[user].len() + 1
                == live.len()
            &&& !any_matches(service.grants[user], device, now) ==> after.grants[user] == live
            &&& after.grants[other] == service.grants[other]
            &&& after.allowed == service.allowed
            &&& after.active == service.active
            &&& after.allow_joined_rooms == service.allow_joined_rooms
            &&& after.grant_ttl == service.grant_ttl
            &&& after.flow_timeout == service.flow_timeout
            &&& after.capacity == service.capacity
            &&& after.approves_all == service.approves_all
        }),
{
    let list = service.grants[user];
    lemma_matches_are_live(list, device, now);
    lemma_first_match(live_grants(list, now), device, now);
}

/// Ending a flow ends that flow alone, and nothing else changes; its user may
/// then start another, unless one of their other flows is under way.
pub proof fn law_finishing_ends_one_flow(service: ServiceView, flow: FlowView, other: FlowView)
    ensures
        ({
            let after = after_finish(service, flow);
            &&& !after.active.contains(flow)
            &&& other != flow ==> (after.active.contains(other) <==> service.active.contains(
                other,
            ))
            &&& after.grants == service.grants
            &&& after.allowed == service.allowed
            &&& after.allow_joined_rooms == service.allow_joined_rooms
            &&& after.capacity == service.capacity
            &&& after.grant_ttl == service.grant_ttl
            &&& after.flow_timeout == service.flow_timeout
            &&& after.approves_all == service.approves_all
            &&& one_per_user(service.active) && service.active.contains(flow) && other.user
                == flow.user ==> reservation_of(after.active, other) is Reserved
        }),
{
    let after = after_finish(service, flow);
    if one_per_user(service.active) && service.active.contains(flow) && other.user == flow.user {
        if has_flow(after.active, other.user) {
            let found = choose|found: FlowView| #[trigger]
                after.active.contains(found) && found.user == other.user;
            assert(service.active.contains(found));
            assert(found == flow);
        }
    }
}

/// Asking whether the bot may start a verification uses no grant up: the
/// answer stays the same, and no one else is concerned.
pub proof fn law_asking_uses_no_grant_up(
    service: ServiceView,
    user: Seq<char>,
    device: Seq<char>,
    now: nat,
    other: Seq<char>,
)
    requires
        service.grants.contains_key(user),
        other != user,
    ensures
        ({
            let after = after_device_request(service, user, now);
            &&& may_request(after, user, device, now) == may_request(service, user, device, now)
            &&& any_matches(after.grants[user], Some(device), now) == any_matches(
                service.grants[user],
                Some(device),
                now,
            )
            &&& after.grants[other] == service.grants[other]
            &&& after.allowed == service.allowed
            &&& after.active == service.active
            &&& after.grant_ttl == service.grant_ttl
            &&& after.allow_joined_rooms == service.allow_joined_rooms
            &&& after.flow_timeout == service.flow_timeout
            &&& after.capacity == service.capacity
            &&& after.approves_all == service.approves_all
        }),
{
    lemma_matches_are_live(service.grants[user], Some(device), now);
}

/// A service made for trust on first use approves every SAS; any other leaves
/// the decision to its policy.
pub proof fn law_first_use_needs_no_approval(
    allowed: Set<Seq<char>>,
    allow_joined_rooms: bool,
    settings: VerificationSettings,
)
    ensures
        approval_of(new_service(allowed, allow_joined_rooms, settings, true)) == Some(
            ApprovalDecision::Approve,
        ),
        approval_of(new_service(allowed, allow_joined_rooms, settings, false)) is None,
{
}

/// The service for a single user is for that user alone, in whatever rooms
/// others are. The user may verify at first contact; and once more, whatever
/// the trust in them, where a reset is allowed, for ten minutes.
pub proof fn law_the_service_for_a_user_is_theirs_alone(
    user: Seq<char>,
    reset_allowed: bool,
    now: nat,
    device: Option<Seq<char>>,
    trust: ExistingTrust,
    shares_room: bool,
    later: nat,
    other: Seq<char>,
)
    ensures
        ({
            let service = single_user_service(user, reset_allowed, now);
            &&& is_authorized(
                service,
                user,
                device,
                ExistingTrust::Unverified,
                shares_room,
                later,
            )
            &&& trust !is Unverified ==> (is_authorized(
                service,
                user,
                device,
                trust,
                shares_room,
                later,
            ) <==> reset_allowed && later < now + 600_000_000_000)
            &&& other != user ==> !is_authorized(
                service,
                other,
                device,
                trust,
                shares_room,
                later,
            )
            &&& approval_of(service) == Some(ApprovalDecision::Approve)
        }),
{
    let service = single_user_service(user, reset_allowed, now);
    if reset_allowed {
        let grant = GrantView { device_id: None, expires_at: now + 600_000_000_000 };
        assert(service.grants[user] =~= seq![grant]);
        assert(service.grants[user][0] == grant);
        assert(grant_matches(grant, device, later) <==> later < now + 600_000_000_000);
    } else {
        assert(service.grants[user].len() == 0);
    }
    if other != user {
        assert(service.grants[other].len() == 0);
    }
}

/// A flow is reserved if and only if its user has none; it is a duplicate
/// where it is under way itself. A flow that is not reserved changes nothing.
pub proof fn law_which_flows_are_reserved(flows: Set<FlowView>, flow: FlowView)
    ensures
        reservation_of(flows, flow) is Duplicate <==> flows.contains(flow),
        reservation_of(flows, flow) is Reserved <==> !(exists|other: FlowView| #[trigger]
            flows.contains(other) && other.user == flow.user),
        reservation_of(flows, flow) !is Reserved ==> after_reservation(flows, flow) == flows,
        reservation_of(flows, flow) is Reserved ==> after_reservation(flows, flow)
            == flows.insert(flow),
{
    if flows.contains(flow) {
        assert(has_flow(flows, flow.user));
    }
}

/// Admitting a flow changes the flows under way alone, and a new grant the
/// grants of its user alone.
pub proof fn law_what_stays_as_it_is(
    service: ServiceView,
    flow: FlowView,
    terminal: bool,
    user: Seq<char>,
    device: Option<Seq<char>>,
    now: nat,
)
    ensures
        ({
            let admitted = after_request(service, flow, terminal);
            &&& admitted.allow_joined_rooms == service.allow_joined_rooms
            &&& admitted.flow_timeout == service.flow_timeout
            &&& admitted.grant_ttl == service.grant_ttl
            &&& admitted.capacity == service.capacity
            &&& admitted.approves_all == service.approves_all
            &&& admitted.allowed == service.allowed
            &&& admitted.grants == service.grants
        }),
        ({
            let after = granted(service, user, device, now);
            &&& after.flow_timeout == service.flow_timeout
            &&& after.grant_ttl == service.grant_ttl
            &&& after.capacity == service.capacity
            &&& after.approves_all == service.approves_all
            &&& after.grants[user].len() == service.grants[user].len() + 1
            &&& after.grants[user].last() == (GrantView {
                device_id: device,
                expires_at: now + service.grant_ttl,
            })
        }),
{
}

} // verus!

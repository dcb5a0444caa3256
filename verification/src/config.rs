//! Shared configuration: the `[matrix]` and `[security]` tables every bot
//! has, allow-lists, and helpers for locating the config file.
//!
//! Secrets (access token, recovery key) live in the config file or in
//! environment variables, never in the runtime settings that admins can
//! change over chat (see [`crate::settings`]).
use vstd::prelude::*;

use crate::ids;
use crate::ids::{parse_all, IdSet, MatrixId, OwnedRoomId, OwnedUserId};
use crate::number;
use crate::number::{parse_u32, two_digit_string};
use crate::order;
use crate::text;
use crate::text::{copy_strings, debug_string, ends_with, join, same, split_char_once, trim};

verus! {

// The `[matrix]` table

/// Matrix credentials and homeserver: the `[matrix]` table.
///
/// `access_token` and `recovery_key` can be supplied (or overridden) through
/// the `MATRIX_ACCESS_TOKEN` and `MATRIX_RECOVERY_KEY` environment variables
/// so they need not be written into the config file.
pub struct MatrixConfig {
    pub homeserver: String,
    pub user_id: String,
    pub access_token: String,
    pub device_id: String,
    /// Recovery key of the account's secure backup, used once at startup to
    /// restore cross-signing keys.
    pub recovery_key: Option<String>,
}

/// What a `[matrix]` table says.
#[verifier::ext_equal]
pub struct MatrixConfigView {
    pub homeserver: Seq<char>,
    pub user_id: Seq<char>,
    pub access_token: Seq<char>,
    pub device_id: Seq<char>,
    pub recovery_key: Option<Seq<char>>,
}

impl View for MatrixConfig {
    type V = MatrixConfigView;

    open spec fn view(&self) -> MatrixConfigView {
        MatrixConfigView {
            homeserver: self.homeserver@,
            user_id: self.user_id@,
            access_token: self.access_token@,
            device_id: self.device_id@,
            recovery_key: text::option_view(self.recovery_key),
        }
    }
}

impl Clone for MatrixConfig {
    fn clone(&self) -> (res: Self)
        ensures
            res@ == self@,
    {
        MatrixConfig {
            homeserver: self.homeserver.clone(),
            user_id: self.user_id.clone(),
            access_token: self.access_token.clone(),
            device_id: self.device_id.clone(),
            recovery_key: match &self.recovery_key {
                Some(key) => Some(key.clone()),
                None => None,
            },
        }
    }
}

/// Whether a text holds anything but whitespace.
pub open spec fn has_content(s: Seq<char>) -> bool {
    text::trimmed(s).len() > 0
}

/// Whether a text holds anything but whitespace.
pub fn non_empty(s: &str) -> (res: bool)
    ensures
        res == has_content(s@),
{
    let chars = text::trim_chars(&text::chars_of(s));
    chars.len() > 0
}

/// The value of an environment variable, unless it is unset or blank.
pub open spec fn non_empty_value(value: Option<Seq<char>>) -> Option<Seq<char>> {
    match value {
        Some(s) if has_content(s) => Some(s),
        _ => None,
    }
}

/// The value of an environment variable, unless it is unset or blank.
fn non_empty_env(value: Option<String>) -> (res: Option<String>)
    ensures
        text::option_view(res) == non_empty_value(text::option_view(value)),
{
    match value {
        Some(s) => {
            if non_empty(s.as_str()) {
                Some(s)
            } else {
                None
            }
        },
        None => None,
    }
}

/// A `[matrix]` table with the overrides from the environment.
pub open spec fn overridden(
    config: MatrixConfigView,
    access_token: Option<Seq<char>>,
    recovery_key: Option<Seq<char>>,
) -> MatrixConfigView {
    MatrixConfigView {
        access_token: match non_empty_value(access_token) {
            Some(token) => token,
            None => config.access_token,
        },
        recovery_key: match non_empty_value(recovery_key) {
            Some(key) => Some(key),
            None => config.recovery_key,
        },
        ..config
    }
}

impl MatrixConfig {
    /// Apply `MATRIX_ACCESS_TOKEN` / `MATRIX_RECOVERY_KEY` overrides: the
    /// arguments are what the two variables hold.
    ///
    /// Only applies to the bot's primary account; secondary accounts (e.g.
    /// upload peers) keep what their own config table says.
    pub fn apply_env_overrides(
        &mut self,
        access_token: Option<String>,
        recovery_key: Option<String>,
    )
        ensures
            final(self)@ == overridden(
                old(self)@,
                text::option_view(access_token),
                text::option_view(recovery_key),
            ),
    {
        if let Some(token) = non_empty_env(access_token) {
            self.access_token = token;
        }
        if let Some(key) = non_empty_env(recovery_key) {
            self.recovery_key = Some(key);
        }
    }
}

/// Which devices receive room keys (`[security] encryption_strategy`).
#[derive(Clone, Copy, Debug, PartialEq, Eq, Structural)]
pub enum EncryptionStrategy {
    AllDevices,
    IdentityBased,
    OnlyTrusted,
}

impl Default for EncryptionStrategy {
    fn default() -> (res: Self)
        ensures
            res == EncryptionStrategy::IdentityBased,
    {
        EncryptionStrategy::IdentityBased
    }
}

// Allow-lists

/// An allow-list written as either the string `"all"` or a list of IDs.
///
/// An omitted list allows everything; an explicit empty list (`[]`) allows
/// nothing.
#[derive(Debug)]
pub enum AllowList<T: MatrixId> {
    All,
    Only(IdSet<T>),
}

pub type UserAllowList = AllowList<OwnedUserId>;

pub type RoomAllowList = AllowList<OwnedRoomId>;

/// An allow-list as it is written: one word, or a list of identifiers.
#[derive(Debug)]
pub enum RawAllowList {
    Keyword(String),
    List(Vec<String>),
}

/// An error in the configuration.
#[derive(Clone, Debug, PartialEq, Eq)]
pub struct ConfigError {
    pub message: String,
    /// What was wrong with the value in question.
    pub cause: Option<String>,
}

/// The identifiers on the list; `None` stands for all.
impl<T: MatrixId> View for AllowList<T> {
    type V = Option<Set<Seq<char>>>;

    open spec fn view(&self) -> Option<Set<Seq<char>>> {
        match self {
            AllowList::All => None,
            AllowList::Only(set) => Some(set@),
        }
    }
}

/// Whether an allow-list allows an identifier.
pub open spec fn allowed(list: Option<Set<Seq<char>>>, id: Seq<char>) -> bool {
    match list {
        None => true,
        Some(set) => set.contains(id),
    }
}

/// How an allow-list is described: in ascending order, separated by commas.
pub open spec fn description(list: Option<Set<Seq<char>>>) -> Seq<char> {
    match list {
        None => "everyone"@,
        Some(set) => if set == Set::<Seq<char>>::empty() {
            "nobody"@
        } else {
            text::joined(order::sorted_set(set), ", "@)
        },
    }
}

/// The complaint about a word that is not `all`.
pub open spec fn keyword_error(keyword: Seq<char>) -> Seq<char> {
    "expected \"all\" or a list of Matrix IDs, got "@ + text::debug_text(keyword)
}

/// The complaint about an entry that is no identifier.
pub open spec fn entry_error(entry: Seq<char>, error: Seq<char>) -> Seq<char> {
    "invalid Matrix ID "@ + text::debug_text(entry) + ": "@ + error
}

/// The list that is written, or the complaint about it.
pub open spec fn list_of<T: MatrixId>(raw: RawAllowList) -> Result<
    Option<Set<Seq<char>>>,
    Seq<char>,
> {
    match raw {
        RawAllowList::Keyword(keyword) => if keyword@ == "all"@ {
            Ok(None)
        } else {
            Err(keyword_error(keyword@))
        },
        RawAllowList::List(list) => {
            let texts = text::views(list@);
            let n = ids::first_invalid::<T>(texts);
            if n == texts.len() {
                Ok(Some(texts.to_set()))
            } else {
                Err(entry_error(texts[n], T::error_of(texts[n])->0))
            }
        },
    }
}

impl<T: MatrixId> AllowList<T> {
    /// Whether everything is allowed.
    pub fn is_all(&self) -> (res: bool)
        ensures
            res == (self@ is None),
    {
        matches!(self, AllowList::All)
    }

    /// Whether nothing is allowed.
    pub fn is_none(&self) -> (res: bool)
        ensures
            res == (self@ == Some(Set::<Seq<char>>::empty())),
    {
        match self {
            AllowList::All => false,
            AllowList::Only(set) => set.is_empty(),
        }
    }

    /// The explicit entries, empty for `"all"`.
    pub fn entries(&self) -> (res: Vec<T>)
        ensures
            self@ is None ==> res@.len() == 0,
            self@ matches Some(set) ==> ids::id_texts(res@).to_set() == set,
            ids::id_texts(res@).no_duplicates(),
    {
        match self {
            AllowList::All => Vec::new(),
            AllowList::Only(set) => set.entries(),
        }
    }

    /// The entries in words.
    pub fn describe(&self) -> (res: String)
        ensures
            res@ == description(self@),
    {
        match self {
            AllowList::All => "everyone".to_owned(),
            AllowList::Only(set) => {
                if set.is_empty() {
                    "nobody".to_owned()
                } else {
                    let list = set.entries();
                    let mut entries: Vec<String> = Vec::new();
                    let mut i: usize = 0;
                    while i < list.len()
                        invariant
                            i <= list@.len(),
                            text::views(entries@) == ids::id_texts(list@).take(i as int),
                        decreases list@.len() - i,
                    {
                        let ghost before = text::views(entries@);
                        entries.push(list[i].as_str().to_owned());
                        assert(text::views(entries@) =~= before.push(list@[i as int]@));
                        assert(ids::id_texts(list@).take(i + 1) =~= before.push(list@[i as int]@));
                        i += 1;
                    }
                    proof {
                        assert(text::views(entries@) =~= ids::id_texts(list@));
                        order::lemma_sorted_set(ids::id_texts(list@));
                    }
                    join(&order::sort(entries), ", ")
                }
            },
        }
    }

    /// Whether the identifier is allowed.
    pub fn allows(&self, id: &T) -> (res: bool)
        ensures
            res == allowed(self@, id@),
    {
        match self {
            AllowList::All => true,
            AllowList::Only(set) => set.contains(id.as_str()),
        }
    }

    /// Reads an allow-list: the word `all`, or a list of identifiers.
    pub fn from_raw(raw: &RawAllowList) -> (res: Result<Self, ConfigError>)
        ensures
            match res {
                Ok(list) => list_of::<T>(*raw) == Ok::<_, Seq<char>>(list@),
                Err(error) => list_of::<T>(*raw) == Err::<Option<Set<Seq<char>>>, _>(
                    error.message@,
                ),
            },
            match raw {
                RawAllowList::Keyword(keyword) => match res {
                    Ok(list) => keyword@ == "all"@ && list@ is None,
                    Err(error) => keyword@ != "all"@ && error.message@ == keyword_error(keyword@)
                        && error.cause is None,
                },
                RawAllowList::List(list) => {
                    let n = ids::first_invalid::<T>(text::views(list@));
                    match res {
                        Ok(res) => n == list@.len() && res@ == Some(text::views(list@).to_set()),
                        Err(error) => {
                            &&& n < list@.len()
                            &&& T::error_of(list@[n]@) is Some
                            &&& error.message@ == entry_error(
                                list@[n]@,
                                T::error_of(list@[n]@)->0,
                            )
                            &&& error.cause is None
                        },
                    }
                },
            },
    {
        match raw {
            RawAllowList::Keyword(keyword) => {
                if same(keyword.as_str(), "all") {
                    Ok(AllowList::All)
                } else {
                    let mut message = "expected \"all\" or a list of Matrix IDs, got ".to_owned();
                    message.push_str(debug_string(keyword.as_str()).as_str());
                    Err(ConfigError { message, cause: None })
                }
            },
            RawAllowList::List(list) => match parse_all::<T>(list) {
                Ok(set) => Ok(AllowList::Only(set)),
                Err((n, error)) => {
                    let mut message = "invalid Matrix ID ".to_owned();
                    message.push_str(debug_string(list[n].as_str()).as_str());
                    message.push_str(": ");
                    message.push_str(error.message.as_str());
                    Err(ConfigError { message, cause: None })
                },
            },
        }
    }
}

impl<T: MatrixId> Clone for AllowList<T> {
    fn clone(&self) -> (res: Self)
        ensures
            res@ == self@,
    {
        match self {
            AllowList::All => AllowList::All,
            AllowList::Only(set) => AllowList::Only(set.clone()),
        }
    }
}

/// Two lists are equal when both allow everything, or both name the same
/// identifiers.
impl<T: MatrixId> PartialEq for AllowList<T> {
    fn eq(&self, other: &Self) -> (res: bool) {
        match (self, other) {
            (AllowList::All, AllowList::All) => true,
            (AllowList::Only(set), AllowList::Only(other)) => *set == *other,
            _ => false,
        }
    }
}

impl<T: MatrixId> vstd::std_specs::cmp::PartialEqSpecImpl for AllowList<T> {
    open spec fn obeys_eq_spec() -> bool {
        true
    }

    open spec fn eq_spec(&self, other: &Self) -> bool {
        self@ == other@
    }
}

impl<T: MatrixId> Eq for AllowList<T> {

}

impl<T: MatrixId> Default for AllowList<T> {
    fn default() -> (res: Self)
        ensures
            res@ is None,
    {
        AllowList::All
    }
}

// The `[security]` table

/// The default of `[security.verification] flow_timeout_secs`.
pub fn default_verification_flow_timeout_secs() -> (res: u64)
    ensures
        res == 300,
{
    300
}

/// The default of `[security.verification] grant_ttl_secs`.
pub fn default_verification_grant_ttl_secs() -> (res: u64)
    ensures
        res == 600,
{
    600
}

/// The default of `[security.verification] max_concurrent`.
pub fn default_verification_max_concurrent() -> (res: usize)
    ensures
        res == 8,
{
    8
}

/// The `[security]` table shared by all bots.
pub struct SecurityConfig {
    /// Users allowed to invite the bot into rooms (`"all"` or a list).
    /// Configured admins may always invite the bot into a direct chat.
    pub allowed_inviters: UserAllowList,
    /// Rooms the bot is allowed to join (`"all"` or a list). Direct chats
    /// opened by an admin are always allowed.
    pub allowed_rooms: RoomAllowList,
    /// Users allowed to run administrative commands.
    pub admin_users: Vec<String>,
    pub encryption_strategy: EncryptionStrategy,
    pub verification: VerificationConfig,
    pub admin_dm: AdminDmConfig,
}

/// The complaint about an admin that is no user ID.
pub open spec fn admin_error(user: Seq<char>) -> Seq<char> {
    "Invalid Matrix user ID in admin_users: "@ + text::debug_text(user)
}

/// The admins that a list names, where each of its entries is a user ID.
pub open spec fn admins_of(users: Seq<Seq<char>>) -> Option<Set<Seq<char>>> {
    if ids::first_invalid::<OwnedUserId>(users) == users.len() {
        Some(users.to_set())
    } else {
        None
    }
}

impl SecurityConfig {
    /// Parse `admin_users`; invalid entries are an error rather than being
    /// silently dropped, since they gate privileged access.
    pub fn admins(&self) -> (res: Result<IdSet<OwnedUserId>, ConfigError>)
        ensures
            match res {
                Ok(set) => admins_of(text::views(self.admin_users@)) == Some(set@),
                Err(_) => admins_of(text::views(self.admin_users@)) is None,
            },
            ({
                let users = text::views(self.admin_users@);
                let n = ids::first_invalid::<OwnedUserId>(users);
                match res {
                    Ok(set) => n == users.len() && set@ == users.to_set(),
                    Err(error) => {
                        &&& n < users.len()
                        &&& error.message@ == admin_error(users[n])
                        &&& text::option_view(error.cause) == ids::user_id_error(users[n])
                    },
                }
            }),
    {
        match parse_all::<OwnedUserId>(&self.admin_users) {
            Ok(set) => Ok(set),
            Err((n, error)) => {
                let mut message = "Invalid Matrix user ID in admin_users: ".to_owned();
                message.push_str(debug_string(self.admin_users[n].as_str()).as_str());
                Err(ConfigError { message, cause: Some(error.message) })
            },
        }
    }
}

impl Default for SecurityConfig {
    fn default() -> (res: Self)
        ensures
            res.allowed_inviters@ is None,
            res.allowed_rooms@ is None,
            res.admin_users@.len() == 0,
            res.encryption_strategy == EncryptionStrategy::IdentityBased,
            res.verification.is_default(),
            res.admin_dm.is_default(),
    {
        SecurityConfig {
            allowed_inviters: AllowList::All,
            allowed_rooms: AllowList::All,
            admin_users: Vec::new(),
            encryption_strategy: EncryptionStrategy::IdentityBased,
            verification: VerificationConfig::default(),
            admin_dm: AdminDmConfig::default(),
        }
    }
}

impl Clone for SecurityConfig {
    fn clone(&self) -> (res: Self)
        ensures
            res.allowed_inviters@ == self.allowed_inviters@,
            res.allowed_rooms@ == self.allowed_rooms@,
            text::views(res.admin_users@) == text::views(self.admin_users@),
            res.encryption_strategy == self.encryption_strategy,
            res.verification.says_as(self.verification),
            res.admin_dm == self.admin_dm,
    {
        SecurityConfig {
            allowed_inviters: self.allowed_inviters.clone(),
            allowed_rooms: self.allowed_rooms.clone(),
            admin_users: copy_strings(&self.admin_users),
            encryption_strategy: self.encryption_strategy,
            verification: self.verification.clone(),
            admin_dm: self.admin_dm,
        }
    }
}

/// Verification policy: `[security.verification]`.
#[derive(Debug)]
pub struct VerificationConfig {
    /// Matrix users allowed to verify with the bot. Empty falls back to an
    /// explicit `allowed_inviters` list. Admins are always allowed.
    pub allowed_users: Vec<String>,
    /// Allow first-time TOFU verification for users who currently share at
    /// least one joined room with the bot.
    pub allow_users_from_joined_rooms: bool,
    /// Maximum lifetime of one verification flow.
    pub flow_timeout_secs: u64,
    /// Lifetime of a one-shot administrative re-verification grant.
    pub grant_ttl_secs: u64,
    /// Maximum number of verification flows handled at once.
    pub max_concurrent: usize,
}

impl VerificationConfig {
    /// Whether every value is the default.
    pub open spec fn is_default(self) -> bool {
        &&& self.allowed_users@.len() == 0
        &&& !self.allow_users_from_joined_rooms
        &&& self.flow_timeout_secs == 300
        &&& self.grant_ttl_secs == 600
        &&& self.max_concurrent == 8
    }

    /// Whether two policies say the same.
    pub open spec fn says_as(self, other: Self) -> bool {
        &&& text::views(self.allowed_users@) == text::views(other.allowed_users@)
        &&& self.allow_users_from_joined_rooms == other.allow_users_from_joined_rooms
        &&& self.flow_timeout_secs == other.flow_timeout_secs
        &&& self.grant_ttl_secs == other.grant_ttl_secs
        &&& self.max_concurrent == other.max_concurrent
    }
}

impl Clone for VerificationConfig {
    fn clone(&self) -> (res: Self)
        ensures
            res.says_as(*self),
    {
        VerificationConfig {
            allowed_users: copy_strings(&self.allowed_users),
            allow_users_from_joined_rooms: self.allow_users_from_joined_rooms,
            flow_timeout_secs: self.flow_timeout_secs,
            grant_ttl_secs: self.grant_ttl_secs,
            max_concurrent: self.max_concurrent,
        }
    }
}

impl Default for VerificationConfig {
    fn default() -> (res: Self)
        ensures
            res.is_default(),
    {
        VerificationConfig {
            allowed_users: Vec::new(),
            allow_users_from_joined_rooms: false,
            flow_timeout_secs: default_verification_flow_timeout_secs(),
            grant_ttl_secs: default_verification_grant_ttl_secs(),
            max_concurrent: default_verification_max_concurrent(),
        }
    }
}

/// Admin direct-chat policy: `[security.admin_dm]`.
#[derive(Clone, Copy, Debug)]
pub struct AdminDmConfig {
    /// Accept admin commands in direct chats with configured admins.
    pub enabled: bool,
    /// Only accept commands in end-to-end encrypted direct chats.
    pub require_encryption: bool,
    /// Only accept commands sent from a device the bot has verified
    /// (cross-signed by a verified identity). Recommended once the admin and
    /// the bot have verified each other (`!verify`).
    pub require_verified_device: bool,
    /// Also deliver the bot's broadcast posts (digests, reminders, …) into
    /// admin direct chats.
    pub receive_broadcasts: bool,
}

impl AdminDmConfig {
    /// Whether every value is the default.
    pub open spec fn is_default(self) -> bool {
        &&& self.enabled
        &&& self.require_encryption
        &&& !self.require_verified_device
        &&& !self.receive_broadcasts
    }
}

impl Default for AdminDmConfig {
    fn default() -> (res: Self)
        ensures
            res.is_default(),
    {
        AdminDmConfig {
            enabled: true,
            require_encryption: true,
            require_verified_device: false,
            receive_broadcasts: false,
        }
    }
}

// Paths

/// The first path of a list that ends in `.toml`.
pub open spec fn first_toml(args: Seq<Seq<char>>) -> Option<Seq<char>>
    decreases args.len(),
{
    if args.len() == 0 {
        None
    } else if text::is_suffix(args[0], ".toml"@) {
        Some(args[0])
    } else {
        first_toml(args.drop_first())
    }
}

/// What follows the first item of a list, which is the program itself.
pub open spec fn without_program(args: Seq<Seq<char>>) -> Seq<Seq<char>> {
    if args.len() == 0 {
        args
    } else {
        args.drop_first()
    }
}

/// Config file path: the first `*.toml` argument, else `config.toml`. The
/// first of `args` is the program itself and does not count.
pub open spec fn config_path(args: Seq<Seq<char>>) -> Seq<char> {
    match first_toml(without_program(args)) {
        Some(path) => path,
        None => "config.toml"@,
    }
}

/// Config file path: the first `*.toml` argument, else `config.toml`. The
/// first of `args` is the program itself and does not count.
pub fn config_path_from_args(args: &Vec<String>) -> (res: String)
    ensures
        res@ == config_path(text::views(args@)),
{
    if args.len() == 0 {
        return "config.toml".to_owned();
    }
    let mut i: usize = 1;
    let ghost all = text::views(args@);
    assert(all.drop_first() =~= all.skip(1));
    while i < args.len()
        invariant
            1 <= i <= args@.len(),
            all == text::views(args@),
            first_toml(without_program(all)) == first_toml(all.skip(i as int)),
        decreases args@.len() - i,
    {
        if ends_with(args[i].as_str(), ".toml") {
            return args[i].clone();
        }
        assert(all.skip(i as int).drop_first() =~= all.skip(i + 1));
        i += 1;
    }
    "config.toml".to_owned()
}

/// Store directory: `$STORE_PATH`, which is `value`, else `store`.
pub fn store_path_from_env(value: Option<String>) -> (res: String)
    ensures
        res@ == (match value {
            Some(path) => path@,
            None => "store"@,
        }),
{
    match value {
        Some(path) => path,
        None => "store".to_owned(),
    }
}

// User IDs

/// The texts that are user IDs.
pub open spec fn valid_user_ids(users: Seq<Seq<char>>) -> Set<Seq<char>> {
    Set::new(|user: Seq<char>| users.contains(user) && ids::user_id_error(user) is None)
}

/// A configured entry that is no user ID and is left out.
#[derive(Clone, Debug, PartialEq, Eq)]
pub struct SkippedEntry {
    /// The configuration entry that it comes from.
    pub field: String,
    pub entry: String,
    pub error: String,
}

impl View for SkippedEntry {
    type V = (Seq<char>, Seq<char>, Seq<char>);

    open spec fn view(&self) -> (Seq<char>, Seq<char>, Seq<char>) {
        (self.field@, self.entry@, self.error@)
    }
}

/// What the entries say.
pub open spec fn skipped_views(list: Seq<SkippedEntry>) -> Seq<(Seq<char>, Seq<char>, Seq<char>)> {
    Seq::new(list.len(), |i: int| list[i]@)
}

/// The texts that are no user IDs, in order, each with the field it comes
/// from and what is wrong with it.
pub open spec fn skipped(field: Seq<char>, users: Seq<Seq<char>>) -> Seq<
    (Seq<char>, Seq<char>, Seq<char>),
>
    decreases users.len(),
{
    if users.len() == 0 {
        seq![]
    } else {
        let before = skipped(field, users.drop_last());
        match ids::user_id_error(users.last()) {
            Some(error) => before.push((field, users.last(), error)),
            None => before,
        }
    }
}

/// The entries of a list of user IDs that [`parse_user_ids`] skips, to be
/// warned about. `field` is the configuration entry that the list comes from.
#[verifier::loop_isolation(false)]
pub fn skipped_user_ids(field: &str, users: &Vec<String>) -> (res: Vec<SkippedEntry>)
    ensures
        skipped_views(res@) == skipped(field@, text::views(users@)),
{
    let ghost all = text::views(users@);
    let mut res: Vec<SkippedEntry> = Vec::new();
    let mut i: usize = 0;
    assert(skipped_views(res@) =~= skipped(field@, all.take(0)));
    while i < users.len()
        invariant
            i <= users@.len(),
            skipped_views(res@) == skipped(field@, all.take(i as int)),
        decreases users@.len() - i,
    {
        assert(all.take(i + 1).drop_last() =~= all.take(i as int));
        assert(all.take(i + 1).last() == users@[i as int]@);
        if let Err(error) = OwnedUserId::parse(users[i].as_str()) {
            let ghost before = skipped_views(res@);
            let entry = SkippedEntry {
                field: field.to_owned(),
                entry: users[i].clone(),
                error: error.message,
            };
            let ghost view = entry@;
            res.push(entry);
            assert(skipped_views(res@) =~= before.push(view));
        }
        i += 1;
    }
    assert(all.take(i as int) =~= all);
    res
}

/// Every configured user is either parsed or skipped with a complaint, and
/// never both.
pub proof fn law_users_are_parsed_or_skipped(
    field: Seq<char>,
    users: Seq<Seq<char>>,
    user: Seq<char>,
)
    requires
        users.contains(user),
    ensures
        valid_user_ids(users).contains(user) <==> !(exists|error: Seq<char>|
            skipped(field, users).contains((field, user, error))),
{
    lemma_skipped(field, users, user);
    if ids::user_id_error(user) is Some {
        assert(skipped(field, users).contains((field, user, ids::user_id_error(user)->0)));
    }
}

/// Which entries are skipped.
proof fn lemma_skipped(field: Seq<char>, users: Seq<Seq<char>>, user: Seq<char>)
    ensures
        forall|error: Seq<char>| #[trigger]
            skipped(field, users).contains((field, user, error)) <==> users.contains(user)
                && ids::user_id_error(user) == Some(error),
    decreases users.len(),
{
    if users.len() > 0 {
        let rest = users.drop_last();
        let last = users.last();
        lemma_skipped(field, rest, user);
        assert(users =~= rest.push(last));
        assert(users.contains(user) <==> rest.contains(user) || user == last) by {
            if rest.contains(user) {
                let k = choose|k: int| 0 <= k < rest.len() && rest[k] == user;
                assert(users[k] == user);
            }
            assert(users[rest.len() as int] == last);
        }
        let before = skipped(field, rest);
        let after = skipped(field, users);
        assert forall|error: Seq<char>| #[trigger] after.contains((field, user, error)) <==> (
        users.contains(user) && ids::user_id_error(user) == Some(error)) by {
            let item = (field, user, error);
            if before.contains(item) {
                let k = choose|k: int| 0 <= k < before.len() && before[k] == item;
                assert(after[k] == item);
            }
            if ids::user_id_error(last) is Some {
                assert(after[before.len() as int] == (field, last, ids::user_id_error(last)->0));
            }
            if after.contains(item) {
                let k = choose|k: int| 0 <= k < after.len() && after[k] == item;
                if k < before.len() {
                    assert(before[k] == item);
                }
            }
        }
    }
}

/// Parse a list of user IDs, skipping invalid entries: see
/// [`skipped_user_ids`] for these. `_field` is the configuration entry that
/// the list comes from.
pub fn parse_user_ids(_field: &str, users: &Vec<String>) -> (res: IdSet<OwnedUserId>)
    ensures
        res@ == valid_user_ids(text::views(users@)),
{
    let ghost all = text::views(users@);
    let mut res: IdSet<OwnedUserId> = IdSet::new();
    let mut i: usize = 0;
    assert(valid_user_ids(all.take(0)) =~= Set::<Seq<char>>::empty());
    while i < users.len()
        invariant
            i <= users@.len(),
            all == text::views(users@),
            res@ == valid_user_ids(all.take(i as int)),
        decreases users@.len() - i,
    {
        let ghost before = res@;
        if let Ok(id) = OwnedUserId::parse(users[i].as_str()) {
            res.insert(id);
        }
        proof {
            let done = all.take(i as int);
            let next = all.take(i + 1);
            assert(next =~= done.push(all[i as int]));
            assert forall|user: Seq<char>| res@.contains(user) == valid_user_ids(next).contains(
                user,
            ) by {
                if done.contains(user) {
                    let k = choose|k: int| 0 <= k < done.len() && done[k] == user;
                    assert(next[k] == user);
                }
                if next.contains(user) && user != all[i as int] {
                    let k = choose|k: int| 0 <= k < next.len() && next[k] == user;
                    assert(done[k] == user);
                }
                assert(next[i as int] == all[i as int]);
            }
            assert(res@ =~= valid_user_ids(next));
        }
        i += 1;
    }
    assert(all.take(i as int) =~= all);
    res
}

// Times of day

/// A wall-clock time written as `"HH:MM"` in config and settings.
#[derive(Clone, Copy, Debug, PartialEq, Eq, PartialOrd, Ord, Structural)]
pub struct TimeOfDay {
    pub hour: u32,
    pub minute: u32,
}

/// What is wrong with a text that is no time of day.
#[derive(Clone, Copy, Debug, PartialEq, Eq, Structural)]
pub enum TimeFault {
    /// There is no colon.
    NoColon,
    /// What precedes the colon is no number.
    Hour,
    /// What follows the colon is no number.
    Minute,
    /// The hour is above 23 or the minute above 59.
    Range,
}

/// A text that is no time of day.
#[derive(Clone, Debug, PartialEq, Eq)]
pub struct TimeError {
    pub value: String,
    pub fault: TimeFault,
}

/// What a text says as a time of day: the hour and the minute.
pub open spec fn time_of(value: Seq<char>) -> Result<(u32, u32), TimeFault> {
    match text::split_at_char(text::trimmed(value), ':') {
        None => Err(TimeFault::NoColon),
        Some((hour, minute)) => match (number::number_of(hour), number::number_of(minute)) {
            (None, _) => Err(TimeFault::Hour),
            (_, None) => Err(TimeFault::Minute),
            (Some(h), Some(m)) => if h > 23 || m > 59 {
                Err(TimeFault::Range)
            } else {
                Ok((h, m))
            },
        },
    }
}

/// The complaint about a text that is no time of day.
pub open spec fn time_error_message(value: Seq<char>, fault: TimeFault) -> Seq<char> {
    let quoted = text::debug_text(value);
    match fault {
        TimeFault::NoColon => "invalid time "@ + quoted + " (expected HH:MM)"@,
        TimeFault::Hour => "invalid hour in "@ + quoted,
        TimeFault::Minute => "invalid minute in "@ + quoted,
        TimeFault::Range => "invalid time "@ + quoted + " (expected 00:00-23:59)"@,
    }
}

impl TimeError {
    /// The error in words.
    pub fn message(&self) -> (res: String)
        ensures
            res@ == time_error_message(self.value@, self.fault),
    {
        let quoted = debug_string(self.value.as_str());
        let (start, end) = match self.fault {
            TimeFault::NoColon => ("invalid time ", " (expected HH:MM)"),
            TimeFault::Hour => ("invalid hour in ", ""),
            TimeFault::Minute => ("invalid minute in ", ""),
            TimeFault::Range => ("invalid time ", " (expected 00:00-23:59)"),
        };
        let mut message = start.to_owned();
        message.push_str(quoted.as_str());
        message.push_str(end);
        proof {
            reveal_strlit("");
            assert(message@ =~= time_error_message(self.value@, self.fault));
        }
        message
    }
}

/// `hour` and `minute` as `HH:MM`.
pub open spec fn time_text(hour: nat, minute: nat) -> Seq<char> {
    number::two_digits(hour) + ":"@ + number::two_digits(minute)
}

impl TimeOfDay {
    /// The time `hour:minute`.
    pub fn new(hour: u32, minute: u32) -> (res: Self)
        requires
            hour < 24 && minute < 60,
        ensures
            res == (TimeOfDay { hour, minute }),
    {
        TimeOfDay { hour, minute }
    }

    /// Reads a time of day.
    pub fn from_str(value: &str) -> (res: Result<Self, TimeError>)
        ensures
            match res {
                Ok(time) => time_of(value@) == Ok::<(u32, u32), TimeFault>(
                    (time.hour, time.minute),
                ),
                Err(error) => time_of(value@) == Err::<(u32, u32), TimeFault>(error.fault)
                    && error.value@ == value@,
            },
    {
        match parse_hh_mm(value) {
            Ok((hour, minute)) => Ok(TimeOfDay { hour, minute }),
            Err(error) => Err(error),
        }
    }

    /// The time as `HH:MM`.
    pub fn to_text(&self) -> (res: String)
        ensures
            res@ == time_text(self.hour as nat, self.minute as nat),
    {
        let mut res = two_digit_string(self.hour as u64);
        res.push_str(":");
        res.push_str(two_digit_string(self.minute as u64).as_str());
        res
    }
}

/// Parse `HH:MM` (00:00–23:59).
pub fn parse_hh_mm(value: &str) -> (res: Result<(u32, u32), TimeError>)
    ensures
        match res {
            Ok(time) => time_of(value@) == Ok::<(u32, u32), TimeFault>(time),
            Err(error) => time_of(value@) == Err::<(u32, u32), TimeFault>(error.fault)
                && error.value@ == value@,
        },
{
    let fault = match split_char_once(trim(value).as_str(), ':') {
        None => TimeFault::NoColon,
        Some((hour, minute)) => match parse_u32(hour.as_str()) {
            None => TimeFault::Hour,
            Some(hour) => match parse_u32(minute.as_str()) {
                None => TimeFault::Minute,
                Some(minute) => {
                    if hour > 23 || minute > 59 {
                        TimeFault::Range
                    } else {
                        return Ok((hour, minute));
                    }
                },
            },
        },
    };
    Err(TimeError { value: value.to_owned(), fault })
}

// Laws

/// A time of day that is written out reads back as the same time.
pub proof fn law_times_read_back(hour: u32, minute: u32)
    requires
        hour < 24,
        minute < 60,
    ensures
        time_of(time_text(hour as nat, minute as nat)) == Ok::<(u32, u32), TimeFault>(
            (hour, minute),
        ),
{
    let s = time_text(hour as nat, minute as nat);
    let h = number::two_digits(hour as nat);
    let m = number::two_digits(minute as nat);
    reveal_strlit(":");
    number::lemma_two_digits_value(hour as nat);
    number::lemma_two_digits_value(minute as nat);
    assert(s[2] == ':');
    assert(forall|i: int| 0 <= i < 2 ==> s[i] == h[i]);
    assert(forall|i: int| 3 <= i < 5 ==> s[i] == m[i - 3]);
    assert(number::is_digit(h[0]) && number::is_digit(h[1]));
    assert(number::is_digit(m[0]) && number::is_digit(m[1]));
    assert(s.last() == m[1]);
    vstd::utf8::char_u32_cast(h[0], h[0] as u32);
    vstd::utf8::char_u32_cast(m[1], m[1] as u32);
    text::lemma_trimmed_unchanged(s);
    text::lemma_first_index_unique(s, text::equal_to(':'), 2);
    assert(s.take(2) =~= h);
    assert(s.skip(3) =~= m);
}

/// What is accepted as a time of day is one.
pub proof fn law_accepted_times_are_in_range(value: Seq<char>)
    ensures
        time_of(value) matches Ok((hour, minute)) ==> hour < 24 && minute < 60,
{
}

/// An omitted list allows everything, and an explicit empty list nothing.
pub proof fn law_empty_lists_allow_nothing(id: Seq<char>)
    ensures
        allowed(None, id),
        !allowed(Some(Set::<Seq<char>>::empty()), id),
{
}

/// A list that is left out allows every identifier, and an explicit one those
/// that it names and no others; a longer one never allows less.
pub proof fn law_lists_allow_what_they_name(
    list: Set<Seq<char>>,
    longer: Set<Seq<char>>,
    id: Seq<char>,
)
    ensures
        allowed(None, id),
        allowed(Some(list), id) <==> list.contains(id),
        list.subset_of(longer) && allowed(Some(list), id) ==> allowed(Some(longer), id),
        allowed(Some(list.insert(id)), id),
        !allowed(Some(list.remove(id)), id),
{
}

/// A text has content if and only if one of its characters is more than
/// whitespace.
pub proof fn law_content_is_more_than_whitespace(s: Seq<char>)
    ensures
        has_content(s) <==> exists|i: int| 0 <= i < s.len() && !text::whitespace_char(
            #[trigger] s[i],
        ),
{
    text::lemma_trim_start(s);
    text::lemma_trim_end(text::trim_start(s));
    text::lemma_trimmed_ends(s);
    if has_content(s) {
        let from = s.len() - text::trim_start(s).len();
        assert(text::trimmed(s)[0] == s[from]);
    } else if exists|i: int| 0 <= i < s.len() && !text::whitespace_char(#[trigger] s[i]) {
        let i = choose|i: int| 0 <= i < s.len() && !text::whitespace_char(#[trigger] s[i]);
        text::lemma_not_blank(s, i);
    }
}

/// What the environment says replaces the two secrets and nothing else, and
/// only where it says more than whitespace; it is taken as it stands.
pub proof fn law_environment_replaces_secrets(
    config: MatrixConfigView,
    token: Seq<char>,
    key: Option<Seq<char>>,
    blank: Seq<char>,
)
    requires
        has_content(token),
        text::all_blank(blank),
    ensures
        overridden(config, Some(token), key).access_token == token,
        overridden(config, None, key).access_token == config.access_token,
        overridden(config, Some(blank), key).access_token == config.access_token,
        overridden(config, key, Some(token)).recovery_key == Some(token),
        overridden(config, key, None).recovery_key == config.recovery_key,
        overridden(config, key, Some(blank)).recovery_key == config.recovery_key,
        overridden(config, None, None) == config,
        overridden(config, Some(token), key).homeserver == config.homeserver,
        overridden(config, Some(token), key).user_id == config.user_id,
        overridden(config, Some(token), key).device_id == config.device_id,
{
    law_content_is_more_than_whitespace(blank);
}

/// The config file is the first argument after the program that ends in
/// `.toml`, whatever stands before and after it; without one it is
/// `config.toml`.
pub proof fn law_the_first_toml_argument_is_the_config(
    program: Seq<char>,
    before: Seq<Seq<char>>,
    name: Seq<char>,
    after: Seq<Seq<char>>,
)
    requires
        forall|i: int| 0 <= i < before.len() ==> !text::is_suffix(#[trigger] before[i], ".toml"@),
    ensures
        config_path(seq![program] + (before + (seq![name + ".toml"@] + after))) == name
            + ".toml"@,
        config_path(seq![program] + before) == "config.toml"@,
        config_path(Seq::empty()) == "config.toml"@,
{
    let rest = seq![name + ".toml"@] + after;
    assert((seq![program] + (before + rest)).drop_first() =~= before + rest);
    assert((seq![program] + before).drop_first() =~= before);
    text::law_suffixes(name, ".toml"@);
    lemma_skip_others(before, rest);
    lemma_skip_others(before, Seq::empty());
    assert(before + Seq::<Seq<char>>::empty() =~= before);
    assert(rest[0] == name + ".toml"@);
}

proof fn lemma_skip_others(before: Seq<Seq<char>>, rest: Seq<Seq<char>>)
    requires
        forall|i: int| 0 <= i < before.len() ==> !text::is_suffix(#[trigger] before[i], ".toml"@),
    ensures
        first_toml(before + rest) == first_toml(rest),
    decreases before.len(),
{
    if before.len() == 0 {
        assert(before + rest =~= rest);
    } else {
        let later = before.drop_first();
        assert forall|i: int| 0 <= i < later.len() implies !text::is_suffix(
            #[trigger] later[i],
            ".toml"@,
        ) by {
            assert(later[i] == before[i + 1]);
        }
        lemma_skip_others(later, rest);
        assert((before + rest).drop_first() =~= later + rest);
        assert((before + rest)[0] == before[0]);
        assert(!text::is_suffix(before[0], ".toml"@));
    }
}

/// The users that are parsed are those of the list that are user IDs.
pub proof fn law_which_users_are_parsed(users: Seq<Seq<char>>, user: Seq<char>)
    ensures
        valid_user_ids(users).contains(user) <==> users.contains(user) && ids::user_id_error(
            user,
        ) is None,
{
}

/// A text is a time of day if and only if it is an hour and a minute with a
/// colon between, whitespace around it aside; what is wrong with any other
/// text is reported by the first part that is.
pub proof fn law_which_texts_are_times(
    blank: Seq<char>,
    hour: Seq<char>,
    minute: Seq<char>,
    end: Seq<char>,
)
    requires
        text::all_blank(blank),
        text::all_blank(end),
        !hour.contains(':'),
        hour.len() > 0 ==> !text::whitespace_char(hour[0]),
        minute.len() > 0 ==> !text::whitespace_char(minute.last()),
    ensures
        ({
            let value = blank + (hour + ":"@ + minute) + end;
            &&& number::number_of(hour) is None ==> time_of(value) == Err::<
                (u32, u32),
                TimeFault,
            >(TimeFault::Hour)
            &&& number::number_of(hour) is Some && number::number_of(minute) is None ==> time_of(
                value,
            ) == Err::<(u32, u32), TimeFault>(TimeFault::Minute)
            &&& number::number_of(hour) is Some && number::number_of(minute) is Some ==> {
                let h = number::number_of(hour)->0;
                let m = number::number_of(minute)->0;
                &&& h <= 23 && m <= 59 ==> time_of(value) == Ok::<(u32, u32), TimeFault>((h, m))
                &&& h > 23 || m > 59 ==> time_of(value) == Err::<(u32, u32), TimeFault>(
                    TimeFault::Range,
                )
            }
        }),
        time_of(blank + hour) == Err::<(u32, u32), TimeFault>(TimeFault::NoColon),
{
    reveal_strlit(":");
    let s = hour + ":"@ + minute;
    let n = hour.len() as int;
    assert(s[n] == ':');
    vstd::utf8::char_u32_cast(':', 58u32);
    assert(!text::whitespace_char(':'));
    if hour.len() > 0 {
        assert(s[0] == hour[0]);
    }
    if minute.len() > 0 {
        assert(s.last() == minute.last());
    } else {
        assert(s.last() == ':');
    }
    text::law_trimming_takes_the_ends_off(blank, s, end);
    assert forall|i: int| 0 <= i < n implies !text::equal_to(':')(#[trigger] s[i]) by {
        assert(s[i] == hour[i]);
        assert(hour.contains(hour[i]));
    }
    text::lemma_first_index_unique(s, text::equal_to(':'), n);
    assert(s.take(n) =~= hour);
    assert(s.skip(n + 1) =~= minute);
    lemma_no_colon(blank + hour);
}

/// A text without a colon is no time of day.
proof fn lemma_no_colon(value: Seq<char>)
    requires
        !value.contains(':'),
    ensures
        time_of(value) == Err::<(u32, u32), TimeFault>(TimeFault::NoColon),
{
    text::lemma_trim_start(value);
    text::lemma_trim_end(text::trim_start(value));
    let s = text::trimmed(value);
    let from = value.len() - text::trim_start(value).len();
    text::lemma_first_index(s, text::equal_to(':'));
    let n = text::index_of_char(s, ':');
    if n < s.len() {
        assert(s[n] == ':');
        assert(value[from + n] == ':');
    }
}

/// In words, a list that is left out is everyone and an empty one nobody;
/// any other names each of its entries.
pub proof fn law_lists_are_described_by_their_entries(list: Set<Seq<char>>, id: Seq<char>)
    requires
        list.finite(),
    ensures
        description(None) == "everyone"@,
        list.len() == 0 ==> description(Some(list)) == "nobody"@,
        list.contains(id) ==> text::occurs_in(description(Some(list)), id),
        list == set![id] ==> description(Some(list)) == id,
{
    if list.len() == 0 {
        assert(list =~= Set::<Seq<char>>::empty());
    }
    if list.contains(id) {
        let sorted = order::sorted_set(list);
        order::lemma_in_sorted_set(list, id);
        let i = choose|i: int| 0 <= i < sorted.len() && sorted[i] == id;
        text::law_joined_texts_hold_their_parts(sorted, ", "@, i);
    }
    if list == set![id] {
        let one = seq![id];
        assert(one.to_set() =~= list) by {
            assert(one[0] == id);
        }
        order::lemma_sorted_set(one);
        order::law_sorting_keeps_and_orders(one);
        let sorted = order::sorted(one);
        order::lemma_sorted_len(one);
        order::lemma_sorted_set_members(list, 0);
        assert(sorted =~= one);
    }
}

/// The word `all` is read as a list that allows everything, and no other word
/// is read. A list is read if and only if each of its entries is an
/// identifier, and then allows those and no others.
pub proof fn law_which_lists_are_read<T: MatrixId>(
    keyword: String,
    list: Vec<String>,
    id: Seq<char>,
)
    ensures
        keyword@ == "all"@ ==> list_of::<T>(RawAllowList::Keyword(keyword)) is Ok && allowed(
            list_of::<T>(RawAllowList::Keyword(keyword))->Ok_0,
            id,
        ),
        keyword@ != "all"@ ==> list_of::<T>(RawAllowList::Keyword(keyword)) is Err,
        (forall|i: int| 0 <= i < list@.len() ==> T::error_of((#[trigger] list@[i])@) is None)
            <==> list_of::<T>(RawAllowList::List(list)) is Ok,
        list_of::<T>(RawAllowList::List(list)) is Ok ==> (allowed(
            list_of::<T>(RawAllowList::List(list))->Ok_0,
            id,
        ) <==> exists|i: int| 0 <= i < list@.len() && (#[trigger] list@[i])@ == id),
{
    let texts = text::views(list@);
    ids::lemma_first_invalid::<T>(texts);
    let n = ids::first_invalid::<T>(texts);
    if n < texts.len() {
        assert(texts[n] == list@[n]@);
    } else {
        assert forall|i: int| 0 <= i < list@.len() implies T::error_of(
            (#[trigger] list@[i])@,
        ) is None by {
            assert(texts[i] == list@[i]@);
        }
        if texts.contains(id) {
            let i = choose|i: int| 0 <= i < texts.len() && texts[i] == id;
            assert(list@[i]@ == id);
        }
        if exists|i: int| 0 <= i < list@.len() && (#[trigger] list@[i])@ == id {
            let i = choose|i: int| 0 <= i < list@.len() && (#[trigger] list@[i])@ == id;
            assert(texts[i] == id);
        }
    }
}

/// What a list says is what it holds, and so it is with the `[matrix]` table.
pub proof fn law_lists_are_seen_as_they_are<T: MatrixId>(
    set: IdSet<T>,
    config: MatrixConfig,
    entry: SkippedEntry,
)
    ensures
        AllowList::<T>::All@ is None,
        AllowList::<T>::Only(set)@ == Some(set@),
        config@.homeserver == config.homeserver@,
        config@.user_id == config.user_id@,
        config@.access_token == config.access_token@,
        config@.device_id == config.device_id@,
        config@.recovery_key is Some <==> config.recovery_key is Some,
        config.recovery_key is Some ==> config@.recovery_key->0 == (config.recovery_key->0)@,
        entry@ == (entry.field@, entry.entry@, entry.error@),
{
}

/// Admins are those who are listed, and no one else; a list with an entry that
/// is no user ID names none.
pub proof fn law_invalid_admins_are_an_error(users: Seq<Seq<char>>, user: Seq<char>)
    ensures
        admins_of(users) is Some <==> forall|i: int|
            0 <= i < users.len() ==> <OwnedUserId as MatrixId>::error_of(
                #[trigger] users[i],
            ) is None,
        admins_of(users) is Some ==> ((admins_of(users)->0).contains(user) <==> users.contains(
            user,
        )),
{
    ids::lemma_first_invalid::<OwnedUserId>(users);
    assert(users.to_set().contains(user) == users.contains(user));
}

/// What the configuration says where it says nothing: no verification without
/// a grant or a listed user, five minutes for a flow, ten for a grant, eight
/// flows at once; and admin chats that are enabled and must be encrypted, from
/// any device, without broadcasts.
pub proof fn law_defaults(verification: VerificationConfig, admin_dm: AdminDmConfig)
    ensures
        verification.is_default() ==> {
            &&& verification.allowed_users@.len() == 0
            &&& !verification.allow_users_from_joined_rooms
            &&& verification.flow_timeout_secs == 5 * 60
            &&& verification.grant_ttl_secs == 10 * 60
            &&& verification.max_concurrent == 8
        },
        admin_dm.is_default() ==> {
            &&& admin_dm.enabled
            &&& admin_dm.require_encryption
            &&& !admin_dm.require_verified_device
            &&& !admin_dm.receive_broadcasts
        },
{
}

/// A copy of a verification policy says all that the policy says.
pub proof fn law_copies_say_the_same(a: VerificationConfig, b: VerificationConfig, i: int)
    requires
        a.says_as(b),
    ensures
        a.allowed_users@.len() == b.allowed_users@.len(),
        0 <= i < a.allowed_users@.len() ==> a.allowed_users@[i]@ == b.allowed_users@[i]@,
        a.allow_users_from_joined_rooms == b.allow_users_from_joined_rooms,
        a.flow_timeout_secs == b.flow_timeout_secs,
        a.grant_ttl_secs == b.grant_ttl_secs,
        a.max_concurrent == b.max_concurrent,
{
    assert(text::views(a.allowed_users@).len() == text::views(b.allowed_users@).len());
    if 0 <= i < a.allowed_users@.len() {
        assert(text::views(a.allowed_users@)[i] == text::views(b.allowed_users@)[i]);
    }
}

/// Complaints name what they are about.
pub proof fn law_complaints_name_their_subject(value: Seq<char>, error: Seq<char>)
    ensures
        text::is_suffix(keyword_error(value), text::debug_text(value)),
        text::is_suffix(entry_error(value, error), error),
        text::occurs_in(entry_error(value, error), text::debug_text(value)),
        text::is_suffix(admin_error(value), text::debug_text(value)),
{
    text::law_suffixes(
        "expected \"all\" or a list of Matrix IDs, got "@,
        text::debug_text(value),
    );
    text::law_suffixes("invalid Matrix ID "@ + text::debug_text(value) + ": "@, error);
    text::law_suffixes(
        "Invalid Matrix user ID in admin_users: "@,
        text::debug_text(value),
    );
    text::lemma_occurs_between(
        "invalid Matrix ID "@,
        text::debug_text(value),
        ": "@ + error,
    );
    assert("invalid Matrix ID "@ + text::debug_text(value) + (": "@ + error) =~= entry_error(
        value,
        error,
    ));
}

/// The complaint about a time names the time, and tells the four faults
/// apart.
pub proof fn law_time_errors_name_the_time(value: Seq<char>, fault: TimeFault)
    ensures
        text::occurs_in(time_error_message(value, fault), text::debug_text(value)),
        fault is Hour ==> time_error_message(value, fault) == "invalid hour in "@
            + text::debug_text(value),
        fault is Minute ==> time_error_message(value, fault) == "invalid minute in "@
            + text::debug_text(value),
        fault is NoColon ==> text::is_suffix(
            time_error_message(value, fault),
            " (expected HH:MM)"@,
        ),
        fault is Range ==> text::is_suffix(
            time_error_message(value, fault),
            " (expected 00:00-23:59)"@,
        ),
{
    let quoted = text::debug_text(value);
    let none = Seq::<char>::empty();
    match fault {
        TimeFault::NoColon => {
            text::lemma_occurs_between("invalid time "@, quoted, " (expected HH:MM)"@);
            text::law_suffixes("invalid time "@ + quoted, " (expected HH:MM)"@);
        },
        TimeFault::Hour => {
            text::lemma_occurs_between("invalid hour in "@, quoted, none);
            assert("invalid hour in "@ + quoted + none =~= "invalid hour in "@ + quoted);
        },
        TimeFault::Minute => {
            text::lemma_occurs_between("invalid minute in "@, quoted, none);
            assert("invalid minute in "@ + quoted + none =~= "invalid minute in "@ + quoted);
        },
        TimeFault::Range => {
            text::lemma_occurs_between("invalid time "@, quoted, " (expected 00:00-23:59)"@);
            text::law_suffixes("invalid time "@ + quoted, " (expected 00:00-23:59)"@);
        },
    }
}

/// The entries that are skipped are seen as they are, in order.
pub proof fn law_skipped_entries_are_seen_as_they_are(list: Seq<SkippedEntry>, i: int)
    ensures
        skipped_views(list).len() == list.len(),
        0 <= i < list.len() ==> skipped_views(list)[i] == (
            list[i].field@,
            list[i].entry@,
            list[i].error@,
        ),
{
}

/// The entries that are skipped are those that are no user IDs, each with its
/// field and what is wrong with it, in the order and as often as they stand in
/// the list.
pub proof fn law_which_entries_are_skipped(
    field: Seq<char>,
    users: Seq<Seq<char>>,
    user: Seq<char>,
)
    ensures
        skipped(field, Seq::empty()).len() == 0,
        ids::user_id_error(user) is None ==> skipped(field, users.push(user)) == skipped(
            field,
            users,
        ),
        ids::user_id_error(user) is Some ==> skipped(field, users.push(user)) == skipped(
            field,
            users,
        ).push((field, user, ids::user_id_error(user)->0)),
{
    assert(users.push(user).drop_last() =~= users);
}

/// A time of day is written as two digits, a colon and two digits.
pub proof fn law_times_are_written_in_five_characters(hour: nat, minute: nat)
    requires
        hour < 24,
        minute < 60,
    ensures
        ({
            let written = time_text(hour, minute);
            &&& written.len() == 5
            &&& written[2] == ':'
            &&& number::number_of(written.take(2)) == Some(hour as u32)
            &&& number::number_of(written.skip(3)) == Some(minute as u32)
        }),
{
    reveal_strlit(":");
    number::law_two_digits(hour);
    number::law_two_digits(minute);
    let written = time_text(hour, minute);
    assert(written.take(2) =~= number::two_digits(hour));
    assert(written.skip(3) =~= number::two_digits(minute));
}

/// The entries of a list are named in ascending order, each once, with a comma
/// and a space between.
pub proof fn law_lists_are_described_in_order(list: Seq<Seq<char>>)
    requires
        list.len() > 0,
        list.no_duplicates(),
        forall|i: int, j: int|
            0 <= i < j < list.len() ==> order::text_le(#[trigger] list[i], #[trigger] list[j]),
    ensures
        description(Some(list.to_set())) == text::joined(list, ", "@),
{
    order::law_sorted_lists_stay(list, list);
    assert(list.to_set().contains(list[0]));
}

} // verus!

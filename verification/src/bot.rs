//! One-call startup for the parts every bot shares.
use vstd::prelude::*;

use crate::admin;
use crate::admin::AdminConsole;
use crate::config;
use crate::config::{store_path_from_env, ConfigError, MatrixConfig, SecurityConfig};
use crate::ids;
use crate::ids::{IdSet, OwnedRoomId, OwnedUserId};
use crate::rooms;
use crate::rooms::{InvitePolicy, RoomInfo};
use crate::text;
use crate::verify;
use crate::verify::VerificationService;

verus! {

/// Options for [`BotBuilder::start`]. `S` is the bot's handle on its runtime
/// settings.
#[derive(Debug)]
pub struct BotBuilder<S> {
    name: String,
    version: String,
    store_path: String,
    matrix_store_path: Option<String>,
    settings: Option<S>,
    admin_help: Option<String>,
}

/// The options of a bot.
#[verifier::ext_equal]
pub struct BuilderView<S> {
    pub name: Seq<char>,
    pub version: Seq<char>,
    pub store_path: Seq<char>,
    pub matrix_store_path: Option<Seq<char>>,
    pub settings: Option<S>,
    pub admin_help: Option<Seq<char>>,
}

impl<S> View for BotBuilder<S> {
    type V = BuilderView<S>;

    closed spec fn view(&self) -> BuilderView<S> {
        BuilderView {
            name: self.name@,
            version: self.version@,
            store_path: self.store_path@,
            matrix_store_path: text::option_view(self.matrix_store_path),
            settings: self.settings,
            admin_help: text::option_view(self.admin_help),
        }
    }
}

/// What starting a bot yields.
#[derive(Debug)]
pub struct Started<S> {
    pub bot: Bot,
    pub verification: VerificationService,
    pub settings: Option<S>,
}

/// The directory for the stores of the Matrix SDK.
pub open spec fn sdk_directory<S>(options: BuilderView<S>) -> Seq<char> {
    match options.matrix_store_path {
        Some(path) => path,
        None => options.store_path,
    }
}

/// The bot that these options and this `[security]` table make.
pub open spec fn bot_of<S>(
    options: BuilderView<S>,
    user_id: Seq<char>,
    security: SecurityConfig,
) -> BotView {
    let admins = text::views(security.admin_users@).to_set();
    BotView {
        user_id,
        admin: admin::ConsoleView {
            bot_name: options.name,
            version: options.version,
            admins,
            policy: security.admin_dm,
            help: options.admin_help,
        },
        invites: rooms::InvitePolicyView {
            inviters: security.allowed_inviters@,
            rooms: security.allowed_rooms@,
            admins,
        },
        admin_dms_receive_broadcasts: security.admin_dm.receive_broadcasts,
    }
}

/// The verification service that this `[security]` table makes.
pub open spec fn service_of(security: SecurityConfig) -> verify::ServiceView {
    verify::ServiceView {
        allowed: verify::configured_users(
            text::views(security.verification.allowed_users@),
            security.allowed_inviters@,
            text::views(security.admin_users@).to_set(),
        ),
        allow_joined_rooms: security.verification.allow_users_from_joined_rooms,
        flow_timeout: security.verification.flow_timeout_secs as nat * 1_000_000_000,
        grant_ttl: security.verification.grant_ttl_secs as nat * 1_000_000_000,
        capacity: verify::capacity_of(security.verification.max_concurrent),
        approves_all: true,
        grants: verify::no_grants(),
        active: Set::empty(),
    }
}

impl<S> BotBuilder<S> {
    /// Directory for the bot's own files; defaults to `$STORE_PATH` or `store`.
    pub fn store_path(self, path: String) -> (res: Self)
        ensures
            res@ == (BuilderView { store_path: path@, ..self@ }),
    {
        let mut res = self;
        res.store_path = path;
        res
    }

    /// Where the Matrix SDK keeps its sqlite stores; defaults to the store
    /// directory itself.
    pub fn matrix_store_path(self, path: String) -> (res: Self)
        ensures
            res@ == (BuilderView { matrix_store_path: Some(path@), ..self@ }),
    {
        let mut res = self;
        res.matrix_store_path = Some(path);
        res
    }

    /// Runtime settings admins may change with `!admin set`.
    pub fn settings(self, settings: S) -> (res: Self)
        ensures
            res@ == (BuilderView { settings: Some(settings), ..self@ }),
    {
        let mut res = self;
        res.settings = Some(settings);
        res
    }

    /// Bot-specific admin commands, listed by `!admin`.
    pub fn admin_help(self, help: String) -> (res: Self)
        ensures
            res@ == (BuilderView { admin_help: Some(help@), ..self@ }),
    {
        let mut res = self;
        res.admin_help = Some(help);
        res
    }

    /// The directory for the bot's own files, which is created first.
    pub fn store_directory(&self) -> (res: &str)
        ensures
            res@ == self@.store_path,
    {
        self.store_path.as_str()
    }

    /// The directory for the stores of the Matrix SDK.
    pub fn matrix_store_directory(&self) -> (res: &str)
        ensures
            res@ == sdk_directory(self@),
    {
        match &self.matrix_store_path {
            Some(path) => path.as_str(),
            None => self.store_path.as_str(),
        }
    }

    /// The shared services of a bot that is logged in as `user_id`:
    /// verification, invite handling and the admin console. An invalid admin
    /// is an error.
    pub fn start(self, user_id: OwnedUserId, security: &SecurityConfig) -> (res: Result<
        Started<S>,
        ConfigError,
    >)
        ensures
            ({
                let users = text::views(security.admin_users@);
                let n = ids::first_invalid::<OwnedUserId>(users);
                match res {
                    Ok(started) => {
                        &&& n == users.len()
                        &&& started.bot@ == bot_of(self@, user_id@, *security)
                        &&& started.verification@ == service_of(*security)
                        &&& started.settings == self@.settings
                    },
                    Err(error) => {
                        &&& n < users.len()
                        &&& error.message@ == config::admin_error(users[n])
                        &&& text::option_view(error.cause) == ids::user_id_error(users[n])
                    },
                }
            }),
    {
        let admins = match security.admins() {
            Ok(admins) => admins,
            Err(error) => {
                return Err(error);
            },
        };
        let verification = VerificationService::from_config(
            &security.verification,
            &security.allowed_inviters,
            &admins,
        );
        let invites = InvitePolicy {
            inviters: security.allowed_inviters.clone(),
            rooms: security.allowed_rooms.clone(),
            admins: admins.clone(),
        };
        let admin = AdminConsole::new(
            self.name,
            self.version,
            admins,
            security.admin_dm,
            self.admin_help,
        );
        let bot = Bot {
            user_id,
            admin,
            invites,
            admin_dms_receive_broadcasts: security.admin_dm.receive_broadcasts,
        };
        Ok(Started { bot, verification, settings: self.settings })
    }
}

/// The account that a bot logs in to: the `[matrix]` table, with the
/// overrides from `MATRIX_ACCESS_TOKEN` and `MATRIX_RECOVERY_KEY`.
pub fn account(
    matrix: &MatrixConfig,
    access_token: Option<String>,
    recovery_key: Option<String>,
) -> (res: MatrixConfig)
    ensures
        res@ == config::overridden(
            matrix@,
            text::option_view(access_token),
            text::option_view(recovery_key),
        ),
{
    let mut account = matrix.clone();
    account.apply_env_overrides(access_token, recovery_key);
    account
}

/// A logged-in bot with the shared services.
#[derive(Debug)]
pub struct Bot {
    pub user_id: OwnedUserId,
    pub admin: AdminConsole,
    invites: InvitePolicy,
    admin_dms_receive_broadcasts: bool,
}

/// What determines a bot.
#[verifier::ext_equal]
pub struct BotView {
    pub user_id: Seq<char>,
    pub admin: admin::ConsoleView,
    pub invites: rooms::InvitePolicyView,
    pub admin_dms_receive_broadcasts: bool,
}

impl View for Bot {
    type V = BotView;

    closed spec fn view(&self) -> BotView {
        BotView {
            user_id: self.user_id@,
            admin: self.admin@,
            invites: self.invites@,
            admin_dms_receive_broadcasts: self.admin_dms_receive_broadcasts,
        }
    }
}

/// The IDs of those rooms that receive the bot's broadcast posts, in order.
pub open spec fn broadcast_ids(bot: BotView, joined: Seq<rooms::RoomView>) -> Seq<Seq<char>> {
    rooms::broadcast_ids(
        joined,
        bot.invites.rooms,
        bot.admin.admins,
        bot.admin_dms_receive_broadcasts,
    )
}

impl Bot {
    /// `name` and `version` are shown by `!admin status`. `store_path` is
    /// what `$STORE_PATH` holds.
    pub fn builder<S>(name: String, version: String, store_path: Option<String>) -> (res:
        BotBuilder<S>)
        ensures
            res@ == (BuilderView::<S> {
                name: name@,
                version: version@,
                store_path: match store_path {
                    Some(path) => path@,
                    None => "store"@,
                },
                matrix_store_path: None,
                settings: None,
                admin_help: None,
            }),
    {
        BotBuilder {
            name,
            version,
            store_path: store_path_from_env(store_path),
            matrix_store_path: None,
            settings: None,
            admin_help: None,
        }
    }

    /// Whether the user is an admin.
    pub fn is_admin(&self, user_id: &OwnedUserId) -> (res: bool)
        ensures
            res == self@.admin.admins.contains(user_id@),
    {
        self.admin.is_admin(user_id)
    }

    /// The admins.
    pub fn admins(&self) -> (res: &IdSet<OwnedUserId>)
        ensures
            res@ == self@.admin.admins,
    {
        self.admin.admins()
    }

    /// Who may pull the bot into which rooms.
    pub fn invites(&self) -> (res: &InvitePolicy)
        ensures
            res@ == self@.invites,
    {
        &self.invites
    }

    /// Joined rooms for broadcast posts: allowed rooms, without admin
    /// direct chats (unless `[security.admin_dm] receive_broadcasts`).
    pub fn broadcast_rooms(&self, joined: &Vec<RoomInfo>) -> (res: Vec<OwnedRoomId>)
        ensures
            ids::id_texts(res@) == broadcast_ids(self@, rooms::room_views(joined@)),
    {
        rooms::broadcast_rooms(
            joined,
            &self.invites.rooms,
            self.admins(),
            self.admin_dms_receive_broadcasts,
        )
    }
}

// Laws

/// The configured admins, and no one else, are admins of the bot. They may
/// open direct chats with it and verify with it, whatever the other lists
/// say.
pub proof fn law_configured_admins_are_admins_everywhere<S>(
    options: BuilderView<S>,
    user_id: Seq<char>,
    security: SecurityConfig,
    user: Seq<char>,
    room: Seq<char>,
    shares_room: bool,
)
    ensures
        ({
            let bot = bot_of(options, user_id, security);
            let listed = text::views(security.admin_users@).contains(user);
            &&& bot.admin.admins.contains(user) <==> listed
            &&& bot.invites.admins == bot.admin.admins
            &&& listed ==> rooms::decision(bot.invites, Some(user), room, true) is Accept
            &&& listed ==> verify::is_allowed(service_of(security), user, shares_room)
        }),
{
    let users = text::views(security.admin_users@);
    assert(users.to_set().contains(user) == users.contains(user));
    if users.contains(user) {
        rooms::law_admin_direct_chats_are_accepted(
            bot_of(options, user_id, security).invites,
            user,
            room,
        );
    }
}

/// A bot goes by its own name, account and options, and its services by the
/// `[security]` table: what it admits, requires and waits for.
pub proof fn law_bots_go_by_their_configuration<S>(
    options: BuilderView<S>,
    user_id: Seq<char>,
    security: SecurityConfig,
)
    ensures
        ({
            let bot = bot_of(options, user_id, security);
            let service = service_of(security);
            &&& bot.user_id == user_id
            &&& bot.admin.bot_name == options.name
            &&& bot.admin.version == options.version
            &&& bot.admin.help == options.admin_help
            &&& bot.admin.policy == security.admin_dm
            &&& bot.invites.inviters == security.allowed_inviters@
            &&& bot.invites.rooms == security.allowed_rooms@
            &&& bot.admin_dms_receive_broadcasts == security.admin_dm.receive_broadcasts
            &&& service.allow_joined_rooms
                == security.verification.allow_users_from_joined_rooms
            &&& service.flow_timeout == security.verification.flow_timeout_secs * 1_000_000_000
            &&& service.grant_ttl == security.verification.grant_ttl_secs * 1_000_000_000
            &&& security.verification.max_concurrent > 0 ==> service.capacity
                == security.verification.max_concurrent
            &&& service.capacity > 0
            &&& service.active.len() == 0
            &&& forall|user: Seq<char>| (#[trigger] service.grants[user]).len() == 0
        }),
{
}

/// The stores of the SDK are in the directory set for them, and with the
/// bot's own files where none is set.
pub proof fn law_where_the_stores_are<S>(options: BuilderView<S>, path: Seq<char>)
    ensures
        sdk_directory(BuilderView { matrix_store_path: Some(path), ..options }) == path,
        sdk_directory(BuilderView { matrix_store_path: None, store_path: path, ..options })
            == path,
{
}

/// A bot posts to those of its rooms that the `[security]` table allows; to
/// direct chats with its admins only where they are to receive broadcasts.
pub proof fn law_where_a_bot_posts<S>(
    options: BuilderView<S>,
    user_id: Seq<char>,
    security: SecurityConfig,
    room: rooms::RoomView,
)
    ensures
        ({
            let bot = bot_of(options, user_id, security);
            let admins = text::views(security.admin_users@).to_set();
            let allowed = config::allowed(security.allowed_rooms@, room.room_id);
            let admin_chat = rooms::dm_partner(room, admins) is Some;
            &&& allowed && (security.admin_dm.receive_broadcasts || !admin_chat)
                ==> broadcast_ids(bot, seq![room]) == seq![room.room_id]
            &&& !allowed || (admin_chat && !security.admin_dm.receive_broadcasts)
                ==> broadcast_ids(bot, seq![room]).len() == 0
        }),
{
    let bot = bot_of(options, user_id, security);
    rooms::law_broadcasts_keep_the_order(
        Seq::empty(),
        room,
        bot.invites.rooms,
        bot.admin.admins,
        bot.admin_dms_receive_broadcasts,
    );
    assert(Seq::empty().push(room) =~= seq![room]);
    assert(Seq::empty().push(room.room_id) =~= seq![room.room_id]);
}

} // verus!

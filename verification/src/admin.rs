//! Admin console: privileged commands in direct chats with configured admins.
//!
//! Admins (`[security] admin_users`) can open a direct chat with any bot and
//! manage it there instead of in shared rooms:
//!
//! ```text
//! !admin                      help
//! !admin status               bot, session and trust status
//! !admin verify               start mutual (SAS) verification with you
//! !admin settings             runtime settings and their values
//! !admin set <key> <value>    change a runtime setting (persisted)
//! !admin unset <key>          revert a setting to the config file value
//! !reset-trust <user>         allow <user> one re-verification
//! !verify-device <user> <dev> verify a specific device of <user>
//! ```
//!
//! Access requires, in this order: the sender is a configured admin; the
//! room is the bot's direct chat with exactly that admin; the message was
//! end-to-end encrypted (unless `require_encryption = false`); and, if
//! `require_verified_device = true`, it was sent from a device the bot has
//! verified. `!reset-trust` / `!verify-device` keep working silently in
//! shared rooms for compatibility.
//!
//! Bot-specific commands sent by an admin in such a chat are reported as
//! [`Dispatch::AdminDm`] so the bot can run them and answer privately.
use vstd::prelude::*;

use crate::config::AdminDmConfig;
use crate::ids;
use crate::ids::{IdSet, MatrixId, OwnedUserId};
use crate::number;
use crate::number::{decimal_string, two_digit_string};
use crate::order;
use crate::rooms;
use crate::rooms::{admin_dm_partner, RoomInfo};
use crate::session;
use crate::session::{cross_signing_summary, CrossSigning};
use crate::settings;
use crate::settings::{SettingsChange, SettingsStore};
use crate::text;
use crate::text::{same, split_whitespace_once, split_words, trim};
use crate::time::Duration;
use crate::verify;
use crate::verify::{trust_summary, ExistingTrust, OwnedDeviceId, VerificationService};

verus! {

/// What the bot should do with a message after the console saw it.
#[derive(Clone, Copy, Debug, PartialEq, Eq, Structural)]
pub enum Dispatch {
    /// A console command; it was answered or deliberately ignored.
    Handled,
    /// A `!command` from an authorized admin in their direct chat that the
    /// console does not know: run it as a (bot-specific) admin command and
    /// reply in this room.
    AdminDm,
    /// Not for the console: process normally.
    Continue,
}

// Commands

#[derive(Debug, PartialEq, Eq)]
pub enum Command {
    Help,
    Status,
    Verify,
    Settings,
    SetTo(String, String),
    Unset(String),
    ResetTrust(OwnedUserId),
    VerifyDevice(OwnedUserId, OwnedDeviceId),
    Invalid(&'static str),
}

/// What a command says.
#[verifier::ext_equal]
pub enum CommandView {
    Help,
    Status,
    Verify,
    Settings,
    SetTo(Seq<char>, Seq<char>),
    Unset(Seq<char>),
    ResetTrust(Seq<char>),
    VerifyDevice(Seq<char>, Seq<char>),
    Invalid(Seq<char>),
}

impl View for Command {
    type V = CommandView;

    open spec fn view(&self) -> CommandView {
        match self {
            Command::Help => CommandView::Help,
            Command::Status => CommandView::Status,
            Command::Verify => CommandView::Verify,
            Command::Settings => CommandView::Settings,
            Command::SetTo(key, value) => CommandView::SetTo(key@, value@),
            Command::Unset(key) => CommandView::Unset(key@),
            Command::ResetTrust(user) => CommandView::ResetTrust(user@),
            Command::VerifyDevice(user, device) => CommandView::VerifyDevice(user@, device@),
            Command::Invalid(reason) => CommandView::Invalid(reason@),
        }
    }
}

/// What an optional command says.
pub open spec fn command_view(command: Option<Command>) -> Option<CommandView> {
    match command {
        Some(command) => Some(command@),
        None => None,
    }
}

/// `!reset-trust` with these arguments.
pub open spec fn reset_trust_command(args: Seq<Seq<char>>) -> CommandView {
    if args.len() != 1 {
        CommandView::Invalid("expected exactly one Matrix user ID"@)
    } else if ids::user_id_error(args[0]) is Some {
        CommandView::Invalid("invalid Matrix user ID"@)
    } else {
        CommandView::ResetTrust(args[0])
    }
}

/// `!verify-device` with these arguments.
pub open spec fn verify_device_command(args: Seq<Seq<char>>) -> CommandView {
    if args.len() != 2 {
        CommandView::Invalid("expected exactly a Matrix user ID and device ID"@)
    } else if ids::user_id_error(args[0]) is Some {
        CommandView::Invalid("invalid Matrix user ID"@)
    } else {
        CommandView::VerifyDevice(args[0], args[1])
    }
}

/// What follows the first two words of `s`, trimmed.
pub open spec fn after_two_words(s: Seq<char>) -> Seq<char> {
    text::trimmed(text::after_word(text::after_word(s)))
}

/// `!admin set`: the key is the first word, the value all that follows it.
pub open spec fn set_command(body: Seq<char>) -> CommandView {
    match text::split_at_whitespace(after_two_words(body)) {
        Some((key, value)) if text::trimmed(value).len() > 0 => CommandView::SetTo(
            key,
            text::trimmed(value),
        ),
        _ => CommandView::Invalid("usage: !admin set <key> <value>"@),
    }
}

/// `!admin` with these arguments; `body` is the whole message.
pub open spec fn admin_command(body: Seq<char>, args: Seq<Seq<char>>) -> CommandView {
    if args.len() == 0 || args[0] == "help"@ {
        CommandView::Help
    } else if args[0] == "status"@ {
        CommandView::Status
    } else if args[0] == "verify"@ {
        CommandView::Verify
    } else if args[0] == "settings"@ {
        CommandView::Settings
    } else if args[0] == "set"@ {
        set_command(body)
    } else if args[0] == "unset"@ {
        if args.len() == 2 {
            CommandView::Unset(args[1])
        } else {
            CommandView::Invalid("usage: !admin unset <key>"@)
        }
    } else if args[0] == "reset-trust"@ {
        reset_trust_command(args.skip(1))
    } else if args[0] == "verify-device"@ {
        verify_device_command(args.skip(1))
    } else {
        CommandView::Invalid("unknown admin command"@)
    }
}

/// The console command that a message is, if it is one.
pub open spec fn command_of(body: Seq<char>) -> Option<CommandView> {
    let words = text::words(body);
    if words.len() == 0 {
        None
    } else if words[0] == "!admin"@ {
        Some(admin_command(body, words.skip(1)))
    } else if words[0] == "!reset-trust"@ {
        Some(reset_trust_command(words.skip(1)))
    } else if words[0] == "!verify-device"@ {
        Some(verify_device_command(words.skip(1)))
    } else {
        None
    }
}

/// Parse a console command; `None` when `body` is not one.
pub fn parse(body: &str) -> (res: Option<Command>)
    ensures
        command_view(res) == command_of(body@),
{
    let words = split_words(body);
    let ghost all = text::words(body@);
    if words.len() == 0 {
        return None;
    }
    assert(words@[0]@ == all[0]);
    let head = words[0].as_str();
    if same(head, "!admin") {
        Some(parse_admin(body, &words))
    } else if same(head, "!reset-trust") {
        Some(parse_reset_trust(&words, 1))
    } else if same(head, "!verify-device") {
        Some(parse_verify_device(&words, 1))
    } else {
        None
    }
}

/// Parses `!admin` and its arguments, which follow the first of `words`.
fn parse_admin(body: &str, words: &Vec<String>) -> (res: Command)
    requires
        words@.len() > 0,
    ensures
        res@ == admin_command(body@, text::views(words@).skip(1)),
{
    let ghost args = text::views(words@).skip(1);
    if words.len() == 1 {
        return Command::Help;
    }
    let name = words[1].as_str();
    assert(args[0] == name@);
    if same(name, "help") {
        Command::Help
    } else if same(name, "status") {
        Command::Status
    } else if same(name, "verify") {
        Command::Verify
    } else if same(name, "settings") {
        Command::Settings
    } else if same(name, "set") {
        parse_set(body)
    } else if same(name, "unset") {
        if words.len() == 3 {
            assert(args[1] == words@[2]@);
            Command::Unset(words[2].clone())
        } else {
            Command::Invalid("usage: !admin unset <key>")
        }
    } else {
        assert(args.skip(1) =~= text::views(words@).skip(2));
        if same(name, "reset-trust") {
            parse_reset_trust(words, 2)
        } else if same(name, "verify-device") {
            parse_verify_device(words, 2)
        } else {
            Command::Invalid("unknown admin command")
        }
    }
}

/// Parses `!admin set`.
fn parse_set(body: &str) -> (res: Command)
    ensures
        res@ == set_command(body@),
{
    let chars = text::chars_of(body);
    let first = text::skip_word(&chars, 0);
    let second = text::skip_word(&chars, first);
    assert(chars@.skip(0) =~= chars@);
    let rest = trim(text::string_of(&chars, second, chars.len()).as_str());
    assert(chars@.subrange(second as int, chars@.len() as int) =~= chars@.skip(second as int));
    if let Some((key, value)) = split_whitespace_once(rest.as_str()) {
        let chars = text::trim_chars(&text::chars_of(value.as_str()));
        if chars.len() > 0 {
            return Command::SetTo(key, text::string_from(&chars));
        }
    }
    Command::Invalid("usage: !admin set <key> <value>")
}

/// Parses the arguments of `!reset-trust`, which are the `words` from `from`
/// on.
fn parse_reset_trust(words: &Vec<String>, from: usize) -> (res: Command)
    requires
        from <= words@.len(),
    ensures
        res@ == reset_trust_command(text::views(words@).skip(from as int)),
{
    if words.len() - from != 1 {
        return Command::Invalid("expected exactly one Matrix user ID");
    }
    assert(text::views(words@).skip(from as int)[0] == words@[from as int]@);
    match OwnedUserId::parse(words[from].as_str()) {
        Ok(user_id) => Command::ResetTrust(user_id),
        Err(_) => Command::Invalid("invalid Matrix user ID"),
    }
}

/// Parses the arguments of `!verify-device`, which are the `words` from
/// `from` on.
fn parse_verify_device(words: &Vec<String>, from: usize) -> (res: Command)
    requires
        from <= words@.len(),
    ensures
        res@ == verify_device_command(text::views(words@).skip(from as int)),
{
    if words.len() - from != 2 {
        return Command::Invalid("expected exactly a Matrix user ID and device ID");
    }
    assert(text::views(words@).skip(from as int)[0] == words@[from as int]@);
    assert(text::views(words@).skip(from as int)[1] == words@[from + 1]@);
    match OwnedUserId::parse(words[from].as_str()) {
        Ok(user_id) => Command::VerifyDevice(user_id, words[from + 1].clone()),
        Err(_) => Command::Invalid("invalid Matrix user ID"),
    }
}

// Access

/// How an event was encrypted.
#[derive(Clone, Copy, Debug, PartialEq, Eq, Structural)]
pub enum EventEncryption {
    /// Not at all.
    Unencrypted,
    /// End-to-end, by a device that the bot has not verified.
    Unverified,
    /// End-to-end, by a device that the bot has verified.
    Verified,
}

/// Whether a message may use the admin console.
#[derive(Clone, Copy, Debug, PartialEq, Eq)]
pub enum Access {
    /// Not an admin direct chat (or not from its admin).
    Outside,
    Denied(&'static str),
    Granted,
}

/// Whether a message may use the admin console.
#[verifier::ext_equal]
pub enum AccessView {
    Outside,
    Denied(Seq<char>),
    Granted,
}

impl View for Access {
    type V = AccessView;

    open spec fn view(&self) -> AccessView {
        match self {
            Access::Outside => AccessView::Outside,
            Access::Denied(reason) => AccessView::Denied(reason@),
            Access::Granted => AccessView::Granted,
        }
    }
}

/// A message in a room.
#[derive(Debug)]
pub struct IncomingMessage {
    pub sender: OwnedUserId,
    /// The text, where the message is one.
    pub body: Option<String>,
    pub encryption: EventEncryption,
}

/// What the console has to be done about a message.
#[derive(Debug)]
pub enum AdminAction {
    Nothing,
    /// Reply with this text.
    Reply(String),
    /// Run the command, and reply with its outcome where `reply`.
    Run { command: Command, reply: bool },
}

/// What the console has to be done about a message.
#[verifier::ext_equal]
pub enum ActionView {
    Nothing,
    Reply(Seq<char>),
    Run { command: CommandView, reply: bool },
}

impl View for AdminAction {
    type V = ActionView;

    open spec fn view(&self) -> ActionView {
        match self {
            AdminAction::Nothing => ActionView::Nothing,
            AdminAction::Reply(text) => ActionView::Reply(text@),
            AdminAction::Run { command, reply } => ActionView::Run {
                command: command@,
                reply: *reply,
            },
        }
    }
}

/// Shared admin command handling.
#[derive(Debug)]
pub struct AdminConsole {
    bot_name: String,
    version: String,
    admins: IdSet<OwnedUserId>,
    policy: AdminDmConfig,
    help: Option<String>,
}

/// What determines an admin console.
#[verifier::ext_equal]
pub struct ConsoleView {
    pub bot_name: Seq<char>,
    pub version: Seq<char>,
    pub admins: Set<Seq<char>>,
    pub policy: AdminDmConfig,
    /// The bot's own admin commands.
    pub help: Option<Seq<char>>,
}

impl View for AdminConsole {
    type V = ConsoleView;

    closed spec fn view(&self) -> ConsoleView {
        ConsoleView {
            bot_name: self.bot_name@,
            version: self.version@,
            admins: self.admins@,
            policy: self.policy,
            help: text::option_view(self.help),
        }
    }
}

/// The refusal of a chat that is not encrypted.
pub open spec fn needs_encryption() -> Seq<char> {
    "admin commands need an end-to-end encrypted chat — enable encryption here or start a new encrypted direct chat"@
}

/// The refusal of a device that is not verified.
pub open spec fn needs_verified_device() -> Seq<char> {
    "admin commands need a verified device — verify this session with the bot (!admin verify) or with your other sessions"@
}

/// Whether `sender` may use the console in `room`.
pub open spec fn access_of(
    console: ConsoleView,
    room: rooms::RoomView,
    sender: Seq<char>,
    encryption: EventEncryption,
) -> AccessView {
    let policy = console.policy;
    if !policy.enabled || rooms::dm_partner(room, console.admins) != Some(sender) {
        AccessView::Outside
    } else if policy.require_encryption && (encryption is Unencrypted || !room.encrypted) {
        AccessView::Denied(needs_encryption())
    } else if policy.require_verified_device && encryption !is Verified {
        AccessView::Denied(needs_verified_device())
    } else {
        AccessView::Granted
    }
}

/// Whether a message meets every condition for using the console: the console
/// is enabled; the bot is in the room, whose direct-chat data names the sender
/// alone; the sender is an admin; nobody else is joined or invited; the
/// message and the room are encrypted and the device is verified where that is
/// required.
pub open spec fn may_use_console(
    console: ConsoleView,
    room: rooms::RoomView,
    sender: Seq<char>,
    encryption: EventEncryption,
) -> bool {
    &&& console.policy.enabled
    &&& console.admins.contains(sender)
    &&& room.joined
    &&& room.direct_targets == seq![Some(sender)]
    &&& forall|member: Seq<char>| #[trigger]
        room.active_members.contains(member) ==> member == room.own_user || member == sender
    &&& console.policy.require_encryption ==> encryption !is Unencrypted && room.encrypted
    &&& console.policy.require_verified_device ==> encryption is Verified
}

/// The reply to a refused command.
pub open spec fn refusal(reason: Seq<char>) -> Seq<char> {
    "⛔ "@ + reason + "."@
}

/// The reply to an admin who uses the console in a shared room.
pub open spec fn direct_chat_only() -> Seq<char> {
    "🔒 Admin commands are only available in a direct chat with me."@
}

/// Whether a command also works, silently, in shared rooms.
pub open spec fn works_in_shared_rooms(command: CommandView) -> bool {
    command is ResetTrust || command is VerifyDevice
}

/// What becomes of a text message that starts with `!`.
pub open spec fn command_outcome(
    console: ConsoleView,
    sender: Seq<char>,
    access: AccessView,
    command: Option<CommandView>,
) -> (Dispatch, ActionView) {
    match access {
        AccessView::Granted => match command {
            Some(command) => (Dispatch::Handled, ActionView::Run { command, reply: true }),
            None => (Dispatch::AdminDm, ActionView::Nothing),
        },
        AccessView::Denied(reason) => (Dispatch::Handled, ActionView::Reply(refusal(reason))),
        AccessView::Outside => match command {
            None => (Dispatch::Continue, ActionView::Nothing),
            Some(command) => (
                Dispatch::Handled,
                if !console.admins.contains(sender) {
                    ActionView::Nothing
                } else if works_in_shared_rooms(command) {
                    ActionView::Run { command, reply: false }
                } else {
                    ActionView::Reply(direct_chat_only())
                },
            ),
        },
    }
}

/// What becomes of a message: only texts that start with `!`, and that the
/// bot did not send itself, are looked at.
pub open spec fn outcome_of(
    console: ConsoleView,
    own_user: Option<Seq<char>>,
    room: rooms::RoomView,
    sender: Seq<char>,
    body: Option<Seq<char>>,
    encryption: EventEncryption,
) -> (Dispatch, ActionView) {
    match body {
        Some(body) if text::trimmed(body).len() > 0 && text::trimmed(body)[0] == '!' && own_user
            != Some(sender) => command_outcome(
            console,
            sender,
            access_of(console, room, sender, encryption),
            command_of(text::trimmed(body)),
        ),
        _ => (Dispatch::Continue, ActionView::Nothing),
    }
}

impl AdminConsole {
    /// The console of a bot.
    pub fn new(
        bot_name: String,
        version: String,
        admins: IdSet<OwnedUserId>,
        policy: AdminDmConfig,
        help: Option<String>,
    ) -> (res: Self)
        ensures
            res@ == (ConsoleView {
                bot_name: bot_name@,
                version: version@,
                admins: admins@,
                policy,
                help: text::option_view(help),
            }),
    {
        AdminConsole { bot_name, version, admins, policy, help }
    }

    /// Whether the user is an admin.
    pub fn is_admin(&self, user_id: &OwnedUserId) -> (res: bool)
        ensures
            res == self@.admins.contains(user_id@),
    {
        self.admins.contains(user_id.as_str())
    }

    /// The admins.
    pub fn admins(&self) -> (res: &IdSet<OwnedUserId>)
        ensures
            res@ == self@.admins,
    {
        &self.admins
    }

    /// Whether `room` is a direct chat with one of the admins.
    pub fn is_admin_dm(&self, room: &RoomInfo) -> (res: bool)
        ensures
            res == (rooms::dm_partner(room@, self@.admins) is Some),
    {
        admin_dm_partner(room, &self.admins).is_some()
    }

    /// Whether a message may use the console.
    pub fn access(
        &self,
        room: &RoomInfo,
        sender: &OwnedUserId,
        encryption: EventEncryption,
    ) -> (res: Access)
        ensures
            res@ == access_of(self@, room@, sender@, encryption),
            res is Granted <==> may_use_console(self@, room@, sender@, encryption),
    {
        proof {
            law_access_is_granted(self@, room@, sender@, encryption);
        }
        if !self.policy.enabled || !self.is_admin(sender) {
            return Access::Outside;
        }
        let partner = match admin_dm_partner(room, &self.admins) {
            Some(partner) => same(partner.as_str(), sender.as_str()),
            None => false,
        };
        if !partner {
            return Access::Outside;
        }
        if self.policy.require_encryption && (encryption == EventEncryption::Unencrypted
            || !room.encrypted) {
            return Access::Denied(
                "admin commands need an end-to-end encrypted chat — enable encryption here or start a new encrypted direct chat",
            );
        }
        if self.policy.require_verified_device && encryption != EventEncryption::Verified {
            return Access::Denied(
                "admin commands need a verified device — verify this session with the bot (!admin verify) or with your other sessions",
            );
        }
        Access::Granted
    }

    /// Inspect a room message. Call this first in the bot's message handler
    /// and stop when it returns [`Dispatch::Handled`].
    pub fn handle(
        &self,
        own_user: Option<&OwnedUserId>,
        room: &RoomInfo,
        message: &IncomingMessage,
    ) -> (res: (Dispatch, AdminAction))
        ensures
            (res.0, res.1@) == outcome_of(
                self@,
                rooms::user_text(own_user),
                room@,
                message.sender@,
                text::option_view(message.body),
                message.encryption,
            ),
    {
        let body = match &message.body {
            Some(body) => trim(body.as_str()),
            None => {
                return (Dispatch::Continue, AdminAction::Nothing);
            },
        };
        let chars = text::chars_of(body.as_str());
        let own = match own_user {
            Some(user) => same(user.as_str(), message.sender.as_str()),
            None => false,
        };
        if chars.len() == 0 || chars[0] != '!' || own {
            return (Dispatch::Continue, AdminAction::Nothing);
        }
        let command = parse(body.as_str());
        match self.access(room, &message.sender, message.encryption) {
            Access::Granted => match command {
                Some(command) => (Dispatch::Handled, AdminAction::Run { command, reply: true }),
                None => (Dispatch::AdminDm, AdminAction::Nothing),
            },
            Access::Denied(reason) => {
                let mut reply = "⛔ ".to_owned();
                reply.push_str(reason);
                reply.push_str(".");
                (Dispatch::Handled, AdminAction::Reply(reply))
            },
            Access::Outside => match command {
                None => (Dispatch::Continue, AdminAction::Nothing),
                Some(command) => {
                    if !self.is_admin(&message.sender) {
                        return (Dispatch::Handled, AdminAction::Nothing);
                    }
                    if matches!(command, Command::ResetTrust(_) | Command::VerifyDevice(..)) {
                        (Dispatch::Handled, AdminAction::Run { command, reply: false })
                    } else {
                        (
                            Dispatch::Handled,
                            AdminAction::Reply(
                                "🔒 Admin commands are only available in a direct chat with me.".to_owned(),
                            ),
                        )
                    }
                },
            },
        }
    }
}

// Running commands

/// What is left to do for a command.
#[derive(Debug)]
pub enum Work {
    /// Nothing: this is the reply.
    Reply(String),
    /// Look up the status, and reply with [`AdminConsole::status`].
    Status,
    /// Look up the trust in the sender, and go on with [`on_trust`].
    CheckTrust,
    /// Validate and save the change, and reply with [`set_reply`].
    SetTo { key: String, change: SettingsChange },
    /// Validate and save the change, and reply with [`unset_reply`].
    Unset { key: String, change: SettingsChange },
    /// Ask the device to verify, and reply with [`device_reply`].
    RequestDevice { user_id: OwnedUserId, device_id: OwnedDeviceId },
}

/// What is left to do for a command.
#[verifier::ext_equal]
pub enum WorkView {
    Reply(Seq<char>),
    Status,
    CheckTrust,
    SetTo { key: Seq<char>, change: settings::ChangeView },
    Unset { key: Seq<char>, change: settings::ChangeView },
    RequestDevice { user: Seq<char>, device: Seq<char> },
}

impl View for Work {
    type V = WorkView;

    open spec fn view(&self) -> WorkView {
        match self {
            Work::Reply(text) => WorkView::Reply(text@),
            Work::Status => WorkView::Status,
            Work::CheckTrust => WorkView::CheckTrust,
            Work::SetTo { key, change } => WorkView::SetTo { key: key@, change: change@ },
            Work::Unset { key, change } => WorkView::Unset { key: key@, change: change@ },
            Work::RequestDevice { user_id, device_id } => WorkView::RequestDevice {
                user: user_id@,
                device: device_id@,
            },
        }
    }
}

/// The reply where the bot has no settings.
pub open spec fn no_settings() -> Seq<char> {
    "This bot has no runtime settings."@
}

/// The reply to a command that failed.
pub open spec fn failure(error: Seq<char>) -> Seq<char> {
    "❌ "@ + error
}

/// The help on the console's own commands.
pub open spec fn console_help(bot_name: Seq<char>) -> Seq<char> {
    bot_name
        + " admin commands:\n!admin status — bot, session and trust status\n!admin verify — verify each other (emoji SAS)\n!admin settings — show runtime settings\n!admin set <key> <value> — change a runtime setting\n!admin unset <key> — revert a setting to the config file\n!reset-trust <user> — allow one re-verification of <user>\n!verify-device <user> <device> — verify a specific device"@
}

/// The help on all commands.
pub open spec fn help_text(console: ConsoleView) -> Seq<char> {
    match console.help {
        Some(help) => console_help(console.bot_name)
            + "\n\nBot commands (also usable here):\n"@ + help,
        None => console_help(console.bot_name),
    }
}

/// The reply that shows the settings.
pub open spec fn settings_text(store: Option<settings::SettingsView>) -> Seq<char> {
    match store {
        None => no_settings(),
        Some(store) => {
            let described = text::joined(
                order::sorted(settings::setting_lines(store)),
                "\n"@,
            );
            if described.len() == 0 {
                no_settings()
            } else {
                "Runtime settings:\n"@ + described
            }
        },
    }
}

/// What is left to do for a command.
pub open spec fn work_of(
    console: ConsoleView,
    command: CommandView,
    store: Option<settings::SettingsView>,
) -> WorkView {
    match command {
        CommandView::Help => WorkView::Reply(help_text(console)),
        CommandView::Status => WorkView::Status,
        CommandView::Verify => WorkView::CheckTrust,
        CommandView::Settings => WorkView::Reply(settings_text(store)),
        CommandView::SetTo(key, value) => match store {
            None => WorkView::Reply(no_settings()),
            Some(store) => {
                let k = text::trimmed(key);
                if store.defaults.contains_key(k) {
                    WorkView::SetTo {
                        key,
                        change: settings::set_change(store, k, settings::input_value(value)),
                    }
                } else {
                    WorkView::Reply(failure(settings::unknown_setting(k)))
                }
            },
        },
        CommandView::Unset(key) => match store {
            None => WorkView::Reply(no_settings()),
            Some(store) => {
                let k = text::trimmed(key);
                if store.defaults.contains_key(k) {
                    WorkView::Unset { key, change: settings::unset_change(store, k) }
                } else {
                    WorkView::Reply(failure(settings::unknown_setting(k)))
                }
            },
        },
        CommandView::ResetTrust(user) => WorkView::Reply(
            "✅ "@ + user + " may verify with me once in the next few minutes."@,
        ),
        CommandView::VerifyDevice(user, device) => WorkView::RequestDevice { user, device },
        CommandView::Invalid(reason) => WorkView::Reply(
            "❌ "@ + reason + ". Send !admin for help."@,
        ),
    }
}

/// What a command does to the verification service: the two verification
/// commands grant one verification.
pub open spec fn service_after(
    service: verify::ServiceView,
    command: CommandView,
    now: nat,
) -> verify::ServiceView {
    match command {
        CommandView::ResetTrust(user) => verify::granted(service, user, None, now),
        CommandView::VerifyDevice(user, device) => verify::granted(
            service,
            user,
            Some(device),
            now,
        ),
        _ => service,
    }
}

/// The settings of an optional store.
pub open spec fn store_view(store: Option<&SettingsStore>) -> Option<settings::SettingsView> {
    match store {
        Some(store) => Some(store@),
        None => None,
    }
}

/// The reply to a command that failed.
fn failure_reply(error: &str) -> (res: String)
    ensures
        res@ == failure(error@),
{
    let mut reply = "❌ ".to_owned();
    reply.push_str(error);
    reply
}

impl AdminConsole {
    /// Runs a command, as far as it needs nothing from outside.
    pub fn run(
        &self,
        command: Command,
        store: Option<&SettingsStore>,
        verification: &mut VerificationService,
        now: Duration,
    ) -> (res: Work)
        requires
            works_in_shared_rooms(command@) ==> verify::can_grant(old(verification)@, now@),
        ensures
            res@ == work_of(self@, command@, store_view(store)),
            final(verification)@ == service_after(old(verification)@, command@, now@),
    {
        match command {
            Command::Help => Work::Reply(self.help()),
            Command::Status => Work::Status,
            Command::Verify => Work::CheckTrust,
            Command::Settings => Work::Reply(settings_reply(store)),
            Command::SetTo(key, value) => match store {
                Some(store) => match store.set(key.as_str(), value.as_str()) {
                    Ok(change) => Work::SetTo { key, change },
                    Err(error) => Work::Reply(failure_reply(error.message().as_str())),
                },
                None => Work::Reply("This bot has no runtime settings.".to_owned()),
            },
            Command::Unset(key) => match store {
                Some(store) => match store.unset(key.as_str()) {
                    Ok(change) => Work::Unset { key, change },
                    Err(error) => Work::Reply(failure_reply(error.message().as_str())),
                },
                None => Work::Reply("This bot has no runtime settings.".to_owned()),
            },
            Command::ResetTrust(user_id) => {
                let mut reply = "✅ ".to_owned();
                reply.push_str(user_id.as_str());
                reply.push_str(" may verify with me once in the next few minutes.");
                verification.grant_user(user_id, now);
                Work::Reply(reply)
            },
            Command::VerifyDevice(user_id, device_id) => {
                verification.grant_device(user_id.clone(), device_id.clone(), now);
                Work::RequestDevice { user_id, device_id }
            },
            Command::Invalid(reason) => {
                let mut reply = "❌ ".to_owned();
                reply.push_str(reason);
                reply.push_str(". Send !admin for help.");
                Work::Reply(reply)
            },
        }
    }

    /// The help on all commands.
    pub fn help(&self) -> (res: String)
        ensures
            res@ == help_text(self@),
    {
        let mut text = self.bot_name.clone();
        text.push_str(
            " admin commands:\n!admin status — bot, session and trust status\n!admin verify — verify each other (emoji SAS)\n!admin settings — show runtime settings\n!admin set <key> <value> — change a runtime setting\n!admin unset <key> — revert a setting to the config file\n!reset-trust <user> — allow one re-verification of <user>\n!verify-device <user> <device> — verify a specific device",
        );
        if let Some(help) = &self.help {
            text.push_str("\n\nBot commands (also usable here):\n");
            text.push_str(help.as_str());
        }
        text
    }
}

/// The reply that shows the settings.
fn settings_reply(store: Option<&SettingsStore>) -> (res: String)
    ensures
        res@ == settings_text(store_view(store)),
{
    if let Some(store) = store {
        let described = store.describe();
        let chars = text::chars_of(described.as_str());
        if chars.len() > 0 {
            let mut reply = "Runtime settings:\n".to_owned();
            reply.push_str(described.as_str());
            return reply;
        }
    }
    "This bot has no runtime settings.".to_owned()
}

/// The reply to `!admin verify` from a user who is verified already.
pub open spec fn already_verified() -> Seq<char> {
    "✅ You and I are already verified. To re-verify (e.g. after resetting your identity) run `!reset-trust` for yourself first."@
}

/// How `!admin verify` goes on, given the trust in the sender: with this
/// reply, or, where there is none, by requesting a verification.
pub open spec fn trust_reply(trust: ExistingTrust) -> Option<Seq<char>> {
    if trust is Verified {
        Some(already_verified())
    } else {
        None
    }
}

/// How `!admin verify` goes on, given the trust in the sender: with this
/// reply, or, where there is none, by requesting a verification.
pub fn on_trust(trust: ExistingTrust) -> (res: Option<String>)
    ensures
        text::option_view(res) == trust_reply(trust),
{
    if trust == ExistingTrust::Verified {
        Some(
            "✅ You and I are already verified. To re-verify (e.g. after resetting your identity) run `!reset-trust` for yourself first.".to_owned(),
        )
    } else {
        None
    }
}

/// The reply to a verification that could not be started.
pub open spec fn not_started(error: Seq<char>) -> Seq<char> {
    "❌ Could not start verification: "@ + error
}

/// The reply to `!admin verify` where the request was sent.
pub open spec fn request_sent() -> Seq<char> {
    "🔐 Verification request sent — accept it in your client and compare the emojis."@
}

/// The reply to `!verify-device` where the request was sent.
pub open spec fn request_sent_to(user: Seq<char>, device: Seq<char>) -> Seq<char> {
    "🔐 Verification request sent to "@ + user + " ("@ + device + ")."@
}

/// The reply to `!admin set` where the change was made.
pub open spec fn setting_set(key: Seq<char>, value: Seq<char>) -> Seq<char> {
    "✅ "@ + key + " = "@ + value
}

/// The reply to `!admin unset` where the change was made.
pub open spec fn setting_reverted(key: Seq<char>, value: Seq<char>) -> Seq<char> {
    "✅ "@ + key + " reverted to the configured value ("@ + value + ")"@
}

/// The reply to `!admin verify`, once the request was sent.
pub fn verify_reply(outcome: Result<(), String>) -> (res: String)
    ensures
        res@ == (match outcome {
            Ok(_) => request_sent(),
            Err(error) => not_started(error@),
        }),
{
    match outcome {
        Ok(_) => {
            "🔐 Verification request sent — accept it in your client and compare the emojis.".to_owned()
        },
        Err(error) => {
            let mut reply = "❌ Could not start verification: ".to_owned();
            reply.push_str(error.as_str());
            reply
        },
    }
}

/// The reply to `!verify-device`, once the request was sent.
pub fn device_reply(
    user_id: &OwnedUserId,
    device_id: &OwnedDeviceId,
    outcome: Result<(), String>,
) -> (res: String)
    ensures
        res@ == (match outcome {
            Ok(_) => request_sent_to(user_id@, device_id@),
            Err(error) => not_started(error@),
        }),
{
    match outcome {
        Ok(_) => {
            let mut reply = "🔐 Verification request sent to ".to_owned();
            reply.push_str(user_id.as_str());
            reply.push_str(" (");
            reply.push_str(device_id.as_str());
            reply.push_str(").");
            reply
        },
        Err(error) => {
            let mut reply = "❌ Could not start verification: ".to_owned();
            reply.push_str(error.as_str());
            reply
        },
    }
}

/// The reply to `!admin set`: `outcome` is the value as it is shown, or why
/// the change was not made.
pub fn set_reply(key: &str, outcome: Result<String, String>) -> (res: String)
    ensures
        res@ == (match outcome {
            Ok(value) => setting_set(key@, value@),
            Err(error) => failure(error@),
        }),
{
    match outcome {
        Ok(value) => {
            let mut reply = "✅ ".to_owned();
            reply.push_str(key);
            reply.push_str(" = ");
            reply.push_str(value.as_str());
            reply
        },
        Err(error) => failure_reply(error.as_str()),
    }
}

/// The reply to `!admin unset`: `outcome` is the value that the setting falls
/// back to, as it is shown, or why the change was not made.
pub fn unset_reply(key: &str, outcome: Result<String, String>) -> (res: String)
    ensures
        res@ == (match outcome {
            Ok(value) => setting_reverted(key@, value@),
            Err(error) => failure(error@),
        }),
{
    match outcome {
        Ok(value) => {
            let mut reply = "✅ ".to_owned();
            reply.push_str(key);
            reply.push_str(" reverted to the configured value (");
            reply.push_str(value.as_str());
            reply.push_str(")");
            reply
        },
        Err(error) => failure_reply(error.as_str()),
    }
}

// Status

/// What the status reports on.
#[derive(Debug)]
pub struct StatusFacts {
    /// The bot's account, when it is logged in.
    pub user_id: Option<String>,
    pub device_id: Option<String>,
    pub uptime_secs: u64,
    pub joined_rooms: usize,
    pub cross_signing: Option<CrossSigning>,
    /// Whether the bot's own device is signed by its owner, where that could
    /// be found out.
    pub own_device_signed: Option<bool>,
    /// The trust in the admin who asks.
    pub trust: ExistingTrust,
}

/// An optional text, or nothing.
pub open spec fn or_empty(text: Option<Seq<char>>) -> Seq<char> {
    match text {
        Some(text) => text,
        None => ""@,
    }
}

/// Whether something is required, in words.
pub open spec fn required_words(flag: bool) -> Seq<char> {
    if flag {
        "required"@
    } else {
        "optional"@
    }
}

/// Whether something is required, in words.
fn required(flag: bool) -> (res: &'static str)
    ensures
        res@ == required_words(flag),
{
    if flag {
        "required"
    } else {
        "optional"
    }
}

/// The status of the bot.
pub open spec fn status_text(console: ConsoleView, facts: StatusFacts) -> Seq<char> {
    console.bot_name + " "@ + console.version + "\nAccount: "@ + or_empty(
        text::option_view(facts.user_id),
    ) + " (device "@ + or_empty(text::option_view(facts.device_id)) + ")\nUptime: "@
        + number::decimal((facts.uptime_secs / 3600) as nat) + "h "@ + number::two_digits(
        ((facts.uptime_secs % 3600) / 60) as nat,
    ) + "m\nJoined rooms: "@ + number::decimal(facts.joined_rooms as nat) + "\nCross-signing: "@
        + session::cross_signing_words(facts.cross_signing) + ", this device "@ + (
    if facts.own_device_signed == Some(true) {
        "signed"@
    } else {
        "NOT signed"@
    }) + "\nYou: "@ + verify::trust_words(facts.trust) + "\nAdmins: "@ + number::decimal(
        console.admins.len(),
    ) + "\nAdmin chats: encryption "@ + required_words(console.policy.require_encryption)
        + ", verified device "@ + required_words(console.policy.require_verified_device)
}

impl AdminConsole {
    /// The status of the bot.
    pub fn status(&self, facts: &StatusFacts) -> (res: String)
        ensures
            res@ == status_text(self@, *facts),
    {
        let signed = match facts.own_device_signed {
            Some(signed) => signed,
            None => false,
        };
        let mut text = self.bot_name.clone();
        text.push_str(" ");
        text.push_str(self.version.as_str());
        text.push_str("\nAccount: ");
        text.push_str(
            match &facts.user_id {
                Some(user_id) => user_id.as_str(),
                None => "",
            },
        );
        text.push_str(" (device ");
        text.push_str(
            match &facts.device_id {
                Some(device_id) => device_id.as_str(),
                None => "",
            },
        );
        text.push_str(")\nUptime: ");
        text.push_str(decimal_string(facts.uptime_secs / 3600).as_str());
        text.push_str("h ");
        text.push_str(two_digit_string((facts.uptime_secs % 3600) / 60).as_str());
        text.push_str("m\nJoined rooms: ");
        text.push_str(decimal_string(facts.joined_rooms as u64).as_str());
        text.push_str("\nCross-signing: ");
        text.push_str(cross_signing_summary(facts.cross_signing));
        text.push_str(", this device ");
        text.push_str(
            if signed {
                "signed"
            } else {
                "NOT signed"
            },
        );
        text.push_str("\nYou: ");
        text.push_str(trust_summary(facts.trust));
        text.push_str("\nAdmins: ");
        text.push_str(decimal_string(self.admins.len() as u64).as_str());
        text.push_str("\nAdmin chats: encryption ");
        text.push_str(required(self.policy.require_encryption));
        text.push_str(", verified device ");
        text.push_str(required(self.policy.require_verified_device));
        text
    }
}

// Laws

/// Access is granted only to an admin, in the bot's direct chat with exactly
/// that admin and no other members, and only if the message was encrypted and its device verified
/// as far as the policy requires it.
pub proof fn law_access_is_restricted(
    console: ConsoleView,
    room: rooms::RoomView,
    sender: Seq<char>,
    encryption: EventEncryption,
)
    requires
        access_of(console, room, sender, encryption) is Granted,
    ensures
        console.policy.enabled,
        console.admins.contains(sender),
        room.joined,
        room.direct_targets == seq![Some(sender)],
        forall|member: Seq<char>| #[trigger]
            room.active_members.contains(member) ==> member == room.own_user || member == sender,
        console.policy.require_encryption ==> encryption !is Unencrypted && room.encrypted,
        console.policy.require_verified_device ==> encryption is Verified,
{
    rooms::law_admin_chats_have_no_other_members(room, console.admins, sender);
}

/// Whoever is no admin gets no command run and no reply, whatever they write
/// and wherever.
pub proof fn law_others_are_ignored(
    console: ConsoleView,
    own_user: Option<Seq<char>>,
    room: rooms::RoomView,
    sender: Seq<char>,
    body: Option<Seq<char>>,
    encryption: EventEncryption,
)
    requires
        !console.admins.contains(sender),
    ensures
        outcome_of(console, own_user, room, sender, body, encryption).1 is Nothing,
        outcome_of(console, own_user, room, sender, body, encryption).0 !is AdminDm,
{
}

/// A command is run in two cases only: with a reply, where access is granted;
/// and silently, where an admin uses a verification command elsewhere.
pub proof fn law_commands_run_only_with_access(
    console: ConsoleView,
    own_user: Option<Seq<char>>,
    room: rooms::RoomView,
    sender: Seq<char>,
    body: Option<Seq<char>>,
    encryption: EventEncryption,
)
    ensures
        outcome_of(console, own_user, room, sender, body, encryption).1 matches ActionView::Run {
            command,
            reply,
        } ==> {
            &&& console.admins.contains(sender)
            &&& reply ==> access_of(console, room, sender, encryption) is Granted
            &&& !reply ==> works_in_shared_rooms(command)
        },
{
}

/// The verification commands of an admin also work outside their direct chat,
/// silently.
pub proof fn law_verification_commands_work_in_shared_rooms(
    console: ConsoleView,
    own_user: Option<Seq<char>>,
    room: rooms::RoomView,
    sender: Seq<char>,
    body: Seq<char>,
    encryption: EventEncryption,
)
    requires
        console.admins.contains(sender),
        own_user != Some(sender),
        text::trimmed(body).len() > 0 && text::trimmed(body)[0] == '!',
        access_of(console, room, sender, encryption) is Outside,
        command_of(text::trimmed(body)) is Some,
        works_in_shared_rooms(command_of(text::trimmed(body))->0),
    ensures
        outcome_of(console, own_user, room, sender, Some(body), encryption) == (
            Dispatch::Handled,
            ActionView::Run { command: command_of(text::trimmed(body))->0, reply: false },
        ),
{
}

/// The bot passes over what it sent itself, and whatever does not start with
/// `!`.
pub proof fn law_own_and_ordinary_messages_are_passed_over(
    console: ConsoleView,
    own_user: Option<Seq<char>>,
    room: rooms::RoomView,
    sender: Seq<char>,
    body: Seq<char>,
    encryption: EventEncryption,
)
    requires
        own_user == Some(sender) || text::trimmed(body).len() == 0 || text::trimmed(body)[0]
            != '!',
    ensures
        outcome_of(console, own_user, room, sender, Some(body), encryption) == (
            Dispatch::Continue,
            ActionView::Nothing,
        ),
{
}

/// A message that is refused is answered with the reason, and handled.
pub proof fn law_refusals_are_answered(
    console: ConsoleView,
    sender: Seq<char>,
    reason: Seq<char>,
    command: Option<CommandView>,
)
    ensures
        command_outcome(console, sender, AccessView::Denied(reason), command) == (
            Dispatch::Handled,
            ActionView::Reply(refusal(reason)),
        ),
{
}

/// Bot-specific commands are passed back to the bot only in an admin's direct
/// chat.
pub proof fn law_bot_commands_are_passed_back_to_admins(
    console: ConsoleView,
    own_user: Option<Seq<char>>,
    room: rooms::RoomView,
    sender: Seq<char>,
    body: Option<Seq<char>>,
    encryption: EventEncryption,
)
    requires
        outcome_of(console, own_user, room, sender, body, encryption).0 is AdminDm,
    ensures
        rooms::dm_partner(room, console.admins) == Some(sender),
        body is Some,
        command_of(text::trimmed(body->0)) is None,
{
}

/// `!admin set` takes its key and its value by words, whatever whitespace
/// parts them: the key is the third word of the message, and the value has
/// all the words after it.
pub proof fn law_set_takes_words(body: Seq<char>)
    requires
        text::words(body).len() >= 4,
        text::words(body)[0] == "!admin"@,
        text::words(body)[1] == "set"@,
    ensures
        command_of(body) matches Some(CommandView::SetTo(key, value)) && {
            &&& key == text::words(body)[2]
            &&& text::words(value) == text::words(body).skip(3)
        },
{
    reveal_names();
    let words = text::words(body);
    assert(words.skip(1)[0] == "set"@);
    text::lemma_after_word(body);
    text::lemma_after_word(text::after_word(body));
    let tail = text::after_word(text::after_word(body));
    assert(text::words(tail) =~= words.skip(2));
    text::lemma_words_trimmed(tail);
    let rest = after_two_words(body);
    text::lemma_trimmed_ends(tail);
    text::lemma_trimmed_unchanged(rest);
    text::lemma_split_words(rest);
    let value = rest.skip(text::index_of_whitespace(rest) + 1);
    assert(words.skip(2).drop_first() =~= words.skip(3));
    text::lemma_words_trimmed(value);
    text::lemma_blank(value);
}

/// `!admin set` without a key or without a value is invalid.
pub proof fn law_set_needs_a_key_and_a_value(body: Seq<char>)
    requires
        2 <= text::words(body).len() < 4,
        text::words(body)[0] == "!admin"@,
        text::words(body)[1] == "set"@,
    ensures
        command_of(body) == Some(CommandView::Invalid("usage: !admin set <key> <value>"@)),
{
    reveal_names();
    let words = text::words(body);
    assert(words.skip(1)[0] == "set"@);
    text::lemma_after_word(body);
    text::lemma_after_word(text::after_word(body));
    let tail = text::after_word(text::after_word(body));
    assert(text::words(tail) =~= words.skip(2));
    text::lemma_words_trimmed(tail);
    text::lemma_blank(tail);
    let rest = after_two_words(body);
    text::lemma_trimmed_ends(tail);
    text::lemma_trimmed_unchanged(rest);
    if words.len() == 3 {
        text::lemma_one_word(rest);
    }
}

/// The verification commands go by two names: `!admin reset-trust` is
/// `!reset-trust`, and `!admin verify-device` is `!verify-device`.
pub proof fn law_verification_commands_keep_their_names(
    long: Seq<char>,
    short: Seq<char>,
    args: Seq<Seq<char>>,
)
    ensures
        text::words(long) == seq!["!admin"@, "reset-trust"@] + args && text::words(short) == seq![
            "!reset-trust"@,
        ] + args ==> command_of(long) == command_of(short),
        text::words(long) == seq!["!admin"@, "verify-device"@] + args && text::words(short)
            == seq!["!verify-device"@] + args ==> command_of(long) == command_of(short),
{
    reveal_names();
    let a = seq!["!admin"@, "reset-trust"@] + args;
    let b = seq!["!reset-trust"@] + args;
    let c = seq!["!admin"@, "verify-device"@] + args;
    let d = seq!["!verify-device"@] + args;
    assert(a.skip(1).skip(1) =~= args);
    assert(b.skip(1) =~= args);
    assert(c.skip(1).skip(1) =~= args);
    assert(d.skip(1) =~= args);
    assert(a.skip(1)[0] == "reset-trust"@);
    assert(c.skip(1)[0] == "verify-device"@);
}

/// Access is granted if and only if the console is enabled, the room is the
/// bot's direct chat with exactly the admin who wrote, with no other members,
/// and the message, the room and the device are encrypted and verified as far
/// as the policy requires it.
pub proof fn law_access_is_granted(
    console: ConsoleView,
    room: rooms::RoomView,
    sender: Seq<char>,
    encryption: EventEncryption,
)
    ensures
        access_of(console, room, sender, encryption) is Granted <==> {
            &&& console.policy.enabled
            &&& console.admins.contains(sender)
            &&& room.joined
            &&& room.direct_targets == seq![Some(sender)]
            &&& forall|member: Seq<char>| #[trigger]
                room.active_members.contains(member) ==> member == room.own_user || member
                    == sender
            &&& console.policy.require_encryption ==> encryption !is Unencrypted && room.encrypted
            &&& console.policy.require_verified_device ==> encryption is Verified
        },
{
    rooms::law_admin_chats_have_no_other_members(room, console.admins, sender);
}

/// A better protected message is never refused where a worse one is granted
/// access: not one from a verified device where one from another device would
/// do, not an encrypted one where an unencrypted one would do, and not one in
/// an encrypted room. Nor does a policy that requires less refuse more.
pub proof fn law_better_protection_is_never_refused(
    console: ConsoleView,
    room: rooms::RoomView,
    sender: Seq<char>,
    encryption: EventEncryption,
)
    requires
        access_of(console, room, sender, encryption) is Granted,
    ensures
        access_of(console, room, sender, EventEncryption::Verified) is Granted,
        encryption is Unencrypted ==> access_of(
            console,
            room,
            sender,
            EventEncryption::Unverified,
        ) is Granted,
        access_of(
            console,
            rooms::RoomView { encrypted: true, ..room },
            sender,
            encryption,
        ) is Granted,
        access_of(
            ConsoleView {
                policy: AdminDmConfig { require_encryption: false, ..console.policy },
                ..console
            },
            room,
            sender,
            encryption,
        ) is Granted,
        access_of(
            ConsoleView {
                policy: AdminDmConfig { require_verified_device: false, ..console.policy },
                ..console
            },
            room,
            sender,
            encryption,
        ) is Granted,
{
    let trusted = rooms::RoomView { encrypted: true, ..room };
    rooms::law_admin_chats_have_no_other_members(room, console.admins, sender);
    rooms::law_admin_chats_have_no_other_members(trusted, console.admins, sender);
}

/// Whoever is not the admin of the direct chat is outside the console, not
/// refused by it; that admin is refused only where encryption or a verified
/// device is required and missing, and told which.
pub proof fn law_refusals_have_a_reason(
    console: ConsoleView,
    room: rooms::RoomView,
    sender: Seq<char>,
    encryption: EventEncryption,
)
    ensures
        ({
            let access = access_of(console, room, sender, encryption);
            let own_chat = console.policy.enabled && console.admins.contains(sender)
                && room.joined && room.direct_targets == seq![Some(sender)] && forall|
                member: Seq<char>,
            | #[trigger]
                room.active_members.contains(member) ==> member == room.own_user || member
                    == sender;
            let exposed = console.policy.require_encryption && (encryption is Unencrypted
                || !room.encrypted);
            &&& access is Outside <==> !own_chat
            &&& access == AccessView::Denied(
                "admin commands need an end-to-end encrypted chat — enable encryption here or start a new encrypted direct chat"@,
            ) <== own_chat && exposed
            &&& access == AccessView::Denied(
                "admin commands need a verified device — verify this session with the bot (!admin verify) or with your other sessions"@,
            ) <== own_chat && !exposed && console.policy.require_verified_device
                && encryption !is Verified
        }),
{
    rooms::law_admin_chats_have_no_other_members(room, console.admins, sender);
}

/// Where access is granted, a console command is run and answered, and any
/// other command goes to the bot; leading and trailing whitespace does not
/// matter.
pub proof fn law_admins_are_served(
    console: ConsoleView,
    own_user: Option<Seq<char>>,
    room: rooms::RoomView,
    sender: Seq<char>,
    body: Seq<char>,
    encryption: EventEncryption,
)
    requires
        may_use_console(console, room, sender, encryption),
        own_user != Some(sender),
        text::trimmed(body).len() > 0,
        text::trimmed(body)[0] == '!',
    ensures
        ({
            let outcome = outcome_of(console, own_user, room, sender, Some(body), encryption);
            match command_of(text::trimmed(body)) {
                Some(command) => outcome == (
                    Dispatch::Handled,
                    ActionView::Run { command, reply: true },
                ),
                None => outcome == (Dispatch::AdminDm, ActionView::Nothing),
            }
        }),
{
    law_access_is_granted(console, room, sender, encryption);
}

/// Outside their direct chat, an admin who uses the console is told where it
/// is available; what is no console command is left to the bot, whoever sends
/// it. A message that is refused is answered whatever it says.
pub proof fn law_what_happens_outside(
    console: ConsoleView,
    own_user: Option<Seq<char>>,
    room: rooms::RoomView,
    sender: Seq<char>,
    body: Seq<char>,
    encryption: EventEncryption,
)
    requires
        own_user != Some(sender),
        text::trimmed(body).len() > 0,
        text::trimmed(body)[0] == '!',
    ensures
        ({
            let outcome = outcome_of(console, own_user, room, sender, Some(body), encryption);
            let access = access_of(console, room, sender, encryption);
            let command = command_of(text::trimmed(body));
            &&& access is Outside && command is None ==> outcome == (
                Dispatch::Continue,
                ActionView::Nothing,
            )
            &&& access is Outside && command is Some && console.admins.contains(sender)
                && !(command->0 is ResetTrust) && !(command->0 is VerifyDevice) ==> outcome == (
                Dispatch::Handled,
                ActionView::Reply(
                    "🔒 Admin commands are only available in a direct chat with me."@,
                ),
            )
            &&& access is Outside && command is Some && !console.admins.contains(sender)
                ==> outcome == (Dispatch::Handled, ActionView::Nothing)
            &&& access is Outside && command is Some && console.admins.contains(sender) && (
            command->0 is ResetTrust || command->0 is VerifyDevice) ==> outcome == (
                Dispatch::Handled,
                ActionView::Run { command: command->0, reply: false },
            )
            &&& access matches AccessView::Denied(reason) ==> outcome == (
                Dispatch::Handled,
                ActionView::Reply("⛔ "@ + reason + "."@),
            )
        }),
{
}

/// A message is for the console if and only if its first word is one of the
/// three commands.
pub proof fn law_console_commands_are_recognized(body: Seq<char>)
    ensures
        command_of(body) is Some <==> text::words(body).len() > 0 && (text::words(body)[0]
            == "!admin"@ || text::words(body)[0] == "!reset-trust"@ || text::words(body)[0]
            == "!verify-device"@),
{
}

/// Every command of the console goes by its own name, and takes the
/// arguments that it needs and no others.
pub proof fn law_console_commands_go_by_their_names(body: Seq<char>)
    requires
        text::words(body).len() > 0,
        text::words(body)[0] == "!admin"@,
    ensures
        ({
            let words = text::words(body);
            let command = command_of(body);
            &&& words.len() == 1 ==> command == Some(CommandView::Help)
            &&& words.len() >= 2 ==> {
                &&& words[1] == "help"@ ==> command == Some(CommandView::Help)
                &&& words[1] == "status"@ ==> command == Some(CommandView::Status)
                &&& words[1] == "verify"@ ==> command == Some(CommandView::Verify)
                &&& words[1] == "settings"@ ==> command == Some(CommandView::Settings)
                &&& words[1] == "unset"@ && words.len() == 3 ==> command == Some(
                    CommandView::Unset(words[2]),
                )
                &&& words[1] == "unset"@ && words.len() != 3 ==> command == Some(
                    CommandView::Invalid("usage: !admin unset <key>"@),
                )
                &&& words[1] != "help"@ && words[1] != "status"@ && words[1] != "verify"@
                    && words[1] != "settings"@ && words[1] != "set"@ && words[1] != "unset"@
                    && words[1] != "reset-trust"@ && words[1] != "verify-device"@ ==> command
                    == Some(CommandView::Invalid("unknown admin command"@))
            }
        }),
{
    reveal_names();
    let args = text::words(body).skip(1);
    if args.len() > 0 {
        assert(args[0] == text::words(body)[1]);
    }
    if args.len() > 1 {
        assert(args[1] == text::words(body)[2]);
    }
}

/// `!reset-trust` takes exactly one user ID, and `!verify-device` exactly a
/// user ID and the name of a device.
pub proof fn law_verification_commands_take_their_arguments(
    body: Seq<char>,
    user: Seq<char>,
    device: Seq<char>,
)
    ensures
        ({
            let words = text::words(body);
            &&& words.len() > 0 && words[0] == "!reset-trust"@ ==> {
                &&& command_of(body) == Some(CommandView::ResetTrust(user)) <==> words == seq![
                    "!reset-trust"@,
                    user,
                ] && ids::user_id_error(user) is None
                &&& command_of(body) matches Some(command) && (command is ResetTrust
                    || command is Invalid)
            }
            &&& words.len() > 0 && words[0] == "!verify-device"@ ==> {
                &&& command_of(body) == Some(CommandView::VerifyDevice(user, device)) <==> words
                    == seq!["!verify-device"@, user, device] && ids::user_id_error(user) is None
                &&& command_of(body) matches Some(command) && (command is VerifyDevice
                    || command is Invalid)
            }
        }),
{
    reveal_names();
    let words = text::words(body);
    if words.len() > 0 {
        let args = words.skip(1);
        if args.len() == 1 {
            assert(args[0] == words[1]);
            assert(words =~= seq![words[0], args[0]]);
        }
        if args.len() == 2 {
            assert(args[0] == words[1]);
            assert(args[1] == words[2]);
            assert(words =~= seq![words[0], args[0], args[1]]);
        }
    }
}

/// How a message spaces its words matters to no command but `!admin set`,
/// whose value is taken as it stands.
pub proof fn law_spacing_does_not_matter(a: Seq<char>, b: Seq<char>)
    requires
        text::words(a) == text::words(b),
        !(text::words(a).len() >= 2 && text::words(a)[0] == "!admin"@ && text::words(a)[1]
            == "set"@),
    ensures
        command_of(a) == command_of(b),
{
    if text::words(a).len() > 1 {
        assert(text::words(a).skip(1)[0] == text::words(a)[1]);
    }
}

/// `!admin set` takes the value as it stands, from its first to its last
/// character, whatever whitespace is in it; whitespace around the words does
/// not count.
pub proof fn law_set_takes_the_value_as_it_stands(
    blanks: Seq<Seq<char>>,
    key: Seq<char>,
    value: Seq<char>,
)
    requires
        blanks.len() == 5,
        forall|i: int| 0 <= i < 5 ==> text::all_blank(#[trigger] blanks[i]),
        blanks[1].len() > 0,
        blanks[2].len() > 0,
        blanks[3].len() > 0,
        key.len() > 0,
        text::no_blank(key),
        value.len() > 0,
        !text::whitespace_char(value[0]),
        !text::whitespace_char(value.last()),
    ensures
        command_of(
            blanks[0] + "!admin"@ + (blanks[1] + "set"@ + (blanks[2] + key + (blanks[3] + value
                + blanks[4]))),
        ) == Some(CommandView::SetTo(key, value)),
{
    reveal_names();
    reveal_strlit("!admin");
    reveal_strlit("set");
    let d = blanks[3] + value + blanks[4];
    let c = blanks[2] + key + d;
    let b = blanks[1] + "set"@ + c;
    let body = blanks[0] + "!admin"@ + b;
    assert(text::all_blank(blanks[0]) && text::all_blank(blanks[1]) && text::all_blank(blanks[2])
        && text::all_blank(blanks[3]) && text::all_blank(blanks[4]));
    assert(d[0] == blanks[3][0]);
    assert(c[0] == blanks[2][0]);
    assert(b[0] == blanks[1][0]);
    text::law_whitespace_parts_words(blanks[0], "!admin"@, b);
    text::law_whitespace_parts_words(blanks[1], "set"@, c);
    text::lemma_after_word_of(blanks[0], "!admin"@, b);
    text::lemma_after_word_of(blanks[1], "set"@, c);
    let words = text::words(body);
    assert(words[0] == "!admin"@);
    assert(words.skip(1) =~= text::words(b));
    assert(words.skip(1)[0] == "set"@);
    let rest = key + (blanks[3] + value);
    assert(c =~= blanks[2] + rest + blanks[4]);
    assert(rest[0] == key[0]);
    assert(rest.last() == value.last());
    text::law_trimming_takes_the_ends_off(blanks[2], rest, blanks[4]);
    assert(after_two_words(body) == rest);
    assert((blanks[3] + value)[0] == blanks[3][0]);
    text::lemma_word_ends(key, blanks[3] + value);
    let n = key.len() as int;
    assert(rest.skip(n + 1) =~= blanks[3].skip(1) + value + Seq::<char>::empty());
    text::law_trimming_takes_the_ends_off(blanks[3].skip(1), value, Seq::<char>::empty());
}

/// What running a command leaves to be done: the status and verification
/// commands look things up, a setting that exists is changed as the command
/// says, and whatever cannot be done is answered.
pub proof fn law_commands_lead_to_their_work(
    console: ConsoleView,
    store: settings::SettingsView,
    key: Seq<char>,
    value: Seq<char>,
)
    ensures
        work_of(console, CommandView::Status, Some(store)) is Status,
        work_of(console, CommandView::Verify, Some(store)) is CheckTrust,
        work_of(console, CommandView::Status, None) is Status,
        work_of(console, CommandView::Verify, None) is CheckTrust,
        work_of(console, CommandView::VerifyDevice(key, value), Some(store)) == (
        WorkView::RequestDevice { user: key, device: value }),
        work_of(console, CommandView::SetTo(key, value), None) is Reply,
        work_of(console, CommandView::Unset(key), None) is Reply,
        text::no_blank(key) ==> {
            &&& store.defaults.contains_key(key) ==> {
                &&& work_of(console, CommandView::SetTo(key, value), Some(store))
                    matches WorkView::SetTo { key: named, change } && {
                    &&& named == key
                    &&& change.key == key
                    &&& change.value == Some(settings::input_value(value))
                    &&& change.made_at == store.version
                }
                &&& work_of(console, CommandView::Unset(key), Some(store))
                    matches WorkView::Unset { key: named, change } && {
                    &&& named == key
                    &&& change.key == key
                    &&& change.value is None
                    &&& change.shown == settings::rendered(store.defaults[key])
                    &&& change.made_at == store.version
                }
            }
            &&& !store.defaults.contains_key(key) ==> {
                &&& work_of(console, CommandView::SetTo(key, value), Some(store)) is Reply
                &&& work_of(console, CommandView::Unset(key), Some(store)) is Reply
            }
        },
{
    if text::no_blank(key) {
        text::lemma_trimmed_unchanged(key);
    }
}

/// `!reset-trust` lets the user verify with any device, and `!verify-device`
/// with the one device, whatever the trust in them, until the grant expires.
/// No other command changes who may verify, and no command changes it for
/// anyone else.
pub proof fn law_verification_commands_grant(
    service: verify::ServiceView,
    command: CommandView,
    user: Seq<char>,
    device: Seq<char>,
    trust: ExistingTrust,
    shares_room: bool,
    now: nat,
    later: nat,
    other: Seq<char>,
)
    ensures
        later < now + service.grant_ttl ==> {
            &&& verify::is_authorized(
                service_after(service, CommandView::ResetTrust(user), now),
                user,
                Some(device),
                trust,
                shares_room,
                later,
            )
            &&& verify::is_authorized(
                service_after(service, CommandView::VerifyDevice(user, device), now),
                user,
                Some(device),
                trust,
                shares_room,
                later,
            )
            &&& verify::may_request(
                service_after(service, CommandView::VerifyDevice(user, device), now),
                user,
                device,
                later,
            )
        },
        other != user ==> {
            &&& service_after(service, CommandView::ResetTrust(user), now).grants[other]
                == service.grants[other]
            &&& service_after(service, CommandView::VerifyDevice(user, device), now).grants[other]
                == service.grants[other]
        },
        command !is ResetTrust && command !is VerifyDevice ==> service_after(
            service,
            command,
            now,
        ) == service,
        service_after(service, command, now).allowed == service.allowed,
        service_after(service, command, now).active == service.active,
{
    if later < now + service.grant_ttl {
        verify::law_granted_users_may_verify(
            service,
            user,
            now,
            Some(device),
            trust,
            shares_room,
            later,
        );
        verify::law_granted_devices_may_verify(
            service,
            user,
            device,
            now,
            None,
            trust,
            shares_room,
            later,
        );
    }
}

/// `!admin verify` asks for a verification of everyone who is not verified,
/// also of those in whom trust was broken.
pub proof fn law_verify_is_for_the_unverified(trust: ExistingTrust)
    ensures
        trust_reply(trust) is None <==> trust is Unverified || trust is VerificationViolation,
{
}

/// The names of the commands differ.
proof fn reveal_names()
    ensures
        "!admin"@ != "!reset-trust"@,
        "!admin"@ != "!verify-device"@,
        "!reset-trust"@ != "!verify-device"@,
        "reset-trust"@ != "help"@,
        "reset-trust"@ != "status"@,
        "reset-trust"@ != "verify"@,
        "reset-trust"@ != "settings"@,
        "reset-trust"@ != "set"@,
        "reset-trust"@ != "unset"@,
        "verify-device"@ != "help"@,
        "verify-device"@ != "status"@,
        "verify-device"@ != "verify"@,
        "verify-device"@ != "settings"@,
        "verify-device"@ != "set"@,
        "verify-device"@ != "unset"@,
        "verify-device"@ != "reset-trust"@,
        "set"@ != "help"@,
        "set"@ != "status"@,
        "set"@ != "verify"@,
        "set"@ != "settings"@,
        "unset"@ != "help"@,
        "unset"@ != "status"@,
        "unset"@ != "verify"@,
        "unset"@ != "settings"@,
        "unset"@ != "set"@,
        "settings"@ != "help"@,
        "settings"@ != "status"@,
        "settings"@ != "verify"@,
        "verify"@ != "help"@,
        "verify"@ != "status"@,
        "status"@ != "help"@,
{
    reveal_strlit("!admin");
    reveal_strlit("!reset-trust");
    reveal_strlit("!verify-device");
    reveal_strlit("help");
    reveal_strlit("status");
    reveal_strlit("verify");
    reveal_strlit("settings");
    reveal_strlit("set");
    reveal_strlit("unset");
    reveal_strlit("reset-trust");
    reveal_strlit("verify-device");
    assert("!admin"@.len() == 6);
    assert("!reset-trust"@.len() == 12);
    assert("!verify-device"@.len() == 14);
    assert("set"@.len() == 3);
    assert("reset-trust"@.len() == 11);
    assert("verify-device"@.len() == 13);
    assert("help"@.len() == 4);
    assert("unset"@.len() == 5);
    assert("settings"@.len() == 8);
    assert("status"@[0] == 's');
    assert("verify"@[0] == 'v');
}

/// The settings that the console shows: a line for each one in effect, and
/// that there are none where there are none.
pub proof fn law_shown_settings_hold_every_setting(
    console: ConsoleView,
    store: settings::SettingsView,
    key: Seq<char>,
)
    requires
        store.defaults.dom().finite(),
        store.overrides.dom().finite(),
    ensures
        work_of(console, CommandView::Settings, None) == WorkView::Reply(
            "This bot has no runtime settings."@,
        ),
        store.overrides.contains_key(key) ==> text::occurs_in(
            settings_text(Some(store)),
            key + " = "@ + settings::rendered(store.overrides[key]) + " (changed)"@,
        ),
        store.defaults.contains_key(key) && !store.overrides.contains_key(key) ==> text::occurs_in(
            settings_text(Some(store)),
            key + " = "@ + settings::rendered(store.defaults[key]),
        ),
        work_of(console, CommandView::Settings, Some(store)) == WorkView::Reply(
            settings_text(Some(store)),
        ),
{
    settings::law_every_setting_is_described(store, key);
    reveal_strlit(" = ");
    assert(" = "@.len() == 3);
    if store.overrides.contains_key(key) {
        lemma_shown_line(
            store,
            key + " = "@ + settings::rendered(store.overrides[key]) + " (changed)"@,
        );
    } else if store.defaults.contains_key(key) {
        lemma_shown_line(store, key + " = "@ + settings::rendered(store.defaults[key]));
    }
}

/// Every line that describes a setting is shown.
proof fn lemma_shown_line(store: settings::SettingsView, line: Seq<char>)
    requires
        settings::setting_lines(store).contains(line),
        line.len() > 0,
    ensures
        text::occurs_in(settings_text(Some(store)), line),
{
    let lines = settings::setting_lines(store);
    let sorted = order::sorted(lines);
    order::lemma_sorted_contains(lines, line);
    let i = choose|i: int| 0 <= i < sorted.len() && sorted[i] == line;
    text::law_joined_texts_hold_their_parts(sorted, "\n"@, i);
    let described = text::joined(sorted, "\n"@);
    let none = Seq::<char>::empty();
    text::lemma_occurs_in_more("Runtime settings:\n"@, described, none, line);
    assert("Runtime settings:\n"@ + described + none =~= "Runtime settings:\n"@ + described);
}

/// The help is about this bot, and ends with the bot's own commands where it
/// has some.
pub proof fn law_help_lists_the_bots_commands(console: ConsoleView, help: Seq<char>)
    ensures
        text::occurs_in(help_text(console), console.bot_name),
        text::occurs_in(help_text(console), console_help(console.bot_name)),
        text::is_suffix(help_text(ConsoleView { help: Some(help), ..console }), help),
        help_text(ConsoleView { help: None, ..console }) == console_help(console.bot_name),
{
    let none = Seq::<char>::empty();
    let own = console_help(console.bot_name);
    let rest = own.skip(console.bot_name.len() as int);
    assert(own =~= none + console.bot_name + rest);
    text::lemma_occurs_between(none, console.bot_name, rest);
    let end = match console.help {
        Some(help) => "\n\nBot commands (also usable here):\n"@ + help,
        None => none,
    };
    assert(help_text(console) =~= none + own + end);
    text::lemma_occurs_between(none, own, end);
    text::lemma_occurs_in_more(none, own, end, console.bot_name);
    text::law_suffixes(own + "\n\nBot commands (also usable here):\n"@, help);
}

/// The status has a line on each of: the bot, its account, how long it has
/// been up, its rooms, its cross-signing, the trust in the admin who asks,
/// the number of admins, and what admin chats require. Its own device counts
/// as signed only if it is known to be.
pub proof fn law_what_the_status_reports(
    console: ConsoleView,
    facts: StatusFacts,
    hours: nat,
    minutes: nat,
    seconds: nat,
)
    requires
        facts.uptime_secs == hours * 3600 + minutes * 60 + seconds,
        minutes < 60,
        seconds < 60,
        facts.user_id is Some,
        facts.device_id is Some,
    ensures
        status_text(console, facts) == text::joined(
            seq![
                console.bot_name + " "@ + console.version,
                "Account: "@ + (facts.user_id->0)@ + " (device "@ + (facts.device_id->0)@ + ")"@,
                "Uptime: "@ + number::decimal(hours) + "h "@ + number::two_digits(minutes) + "m"@,
                "Joined rooms: "@ + number::decimal(facts.joined_rooms as nat),
                "Cross-signing: "@ + session::cross_signing_words(facts.cross_signing)
                    + ", this device "@ + (if facts.own_device_signed is Some
                    && facts.own_device_signed->0 {
                    "signed"@
                } else {
                    "NOT signed"@
                }),
                "You: "@ + verify::trust_words(facts.trust),
                "Admins: "@ + number::decimal(console.admins.len()),
                "Admin chats: encryption "@ + (if console.policy.require_encryption {
                    "required"@
                } else {
                    "optional"@
                }) + ", verified device "@ + (if console.policy.require_verified_device {
                    "required"@
                } else {
                    "optional"@
                }),
            ],
            "
"@,
        ),
{
    lemma_status_lines(
        console.bot_name + " "@ + console.version,
        (facts.user_id->0)@,
        (facts.device_id->0)@,
        number::decimal(hours),
        number::two_digits(minutes),
        number::decimal(facts.joined_rooms as nat),
        session::cross_signing_words(facts.cross_signing),
        if facts.own_device_signed == Some(true) {
            "signed"@
        } else {
            "NOT signed"@
        },
        verify::trust_words(facts.trust),
        number::decimal(console.admins.len()),
        required_words(console.policy.require_encryption),
        required_words(console.policy.require_verified_device),
    );
    assert(facts.uptime_secs / 3600 == hours);
    assert((facts.uptime_secs % 3600) / 60 == minutes);
}

/// The lines of the status, joined.
#[verifier::spinoff_prover]
proof fn lemma_status_lines(
    a: Seq<char>,
    user: Seq<char>,
    device: Seq<char>,
    hour_digits: Seq<char>,
    minute_digits: Seq<char>,
    rooms: Seq<char>,
    signing: Seq<char>,
    signed: Seq<char>,
    trust: Seq<char>,
    admins: Seq<char>,
    encryption: Seq<char>,
    verified: Seq<char>,
)
    ensures
        a + "\nAccount: "@ + user + " (device "@ + device + ")\nUptime: "@ + hour_digits + "h "@
            + minute_digits + "m\nJoined rooms: "@ + rooms + "\nCross-signing: "@ + signing
            + ", this device "@ + signed + "\nYou: "@ + trust + "\nAdmins: "@ + admins
            + "\nAdmin chats: encryption "@ + encryption + ", verified device "@ + verified
            == text::joined(
            seq![
                a,
                "Account: "@ + user + " (device "@ + device + ")"@,
                "Uptime: "@ + hour_digits + "h "@ + minute_digits + "m"@,
                "Joined rooms: "@ + rooms,
                "Cross-signing: "@ + signing + ", this device "@ + signed,
                "You: "@ + trust,
                "Admins: "@ + admins,
                "Admin chats: encryption "@ + encryption + ", verified device "@ + verified,
            ],
            "\n"@,
        ),
{
    reveal_status_strings();
    let end = "\n"@;
    let b = "Account: "@ + user + " (device "@ + device + ")"@;
    let c = "Uptime: "@ + hour_digits + "h "@ + minute_digits + "m"@;
    let d = "Joined rooms: "@ + rooms;
    let e = "Cross-signing: "@ + signing + ", this device "@ + signed;
    let f = "You: "@ + trust;
    let g = "Admins: "@ + admins;
    let h = "Admin chats: encryption "@ + encryption + ", verified device "@ + verified;
    let ab = a + end + b;
    let abc = ab + end + c;
    let abcd = abc + end + d;
    let abcde = abcd + end + e;
    let to_f = abcde + end + f;
    let to_g = to_f + end + g;
    lemma_two_lines(a, end, "Account: "@, user, " (device "@, device, ")"@, "Uptime: "@);
    lemma_two_lines(
        ab,
        end,
        "Uptime: "@,
        hour_digits,
        "h "@,
        minute_digits,
        "m"@,
        "Joined rooms: "@,
    );
    lemma_one_line(abc, end, "Joined rooms: "@, rooms);
    lemma_long_line(abcd, end, "Cross-signing: "@, signing, ", this device "@, signed);
    lemma_one_line(abcde, end, "You: "@, trust);
    lemma_one_line(to_f, end, "Admins: "@, admins);
    lemma_long_line(
        to_g,
        end,
        "Admin chats: encryption "@,
        encryption,
        ", verified device "@,
        verified,
    );
    lemma_eight_lines(a, b, c, d, e, f, g, h, end);
}

/// A line that follows others.
proof fn lemma_one_line(before: Seq<char>, end: Seq<char>, word: Seq<char>, value: Seq<char>)
    ensures
        before + (end + word) + value == before + end + (word + value),
        before + end + word + value == before + end + (word + value),
{
    assert(before + (end + word) + value =~= before + end + (word + value));
    assert(before + end + word + value =~= before + end + (word + value));
}

/// A line with two values that follows others.
proof fn lemma_long_line(
    before: Seq<char>,
    end: Seq<char>,
    word: Seq<char>,
    value: Seq<char>,
    between: Seq<char>,
    other: Seq<char>,
)
    ensures
        before + (end + word) + value + between + other == before + end + (word + value + between
            + other),
        before + end + word + value + between + other == before + end + (word + value + between
            + other),
{
    lemma_one_line(before, end, word, value);
    let line = word + value;
    assert(before + end + line + between + other =~= before + end + (line + between + other));
}

/// A line with two values that follows others, and the start of the next.
proof fn lemma_two_lines(
    before: Seq<char>,
    end: Seq<char>,
    word: Seq<char>,
    value: Seq<char>,
    between: Seq<char>,
    other: Seq<char>,
    close: Seq<char>,
    next: Seq<char>,
)
    ensures
        before + (end + word) + value + between + other + (close + end + next) == before + end + (
        word + value + between + other + close) + end + next,
        before + end + word + value + between + other + (close + end + next) == before + end + (
        word + value + between + other + close) + end + next,
{
    lemma_long_line(before, end, word, value, between, other);
    let line = word + value + between + other;
    assert(before + end + line + (close + end + next) =~= before + end + (line + close) + end
        + next);
}

/// The line breaks in what the status is made of.
proof fn reveal_status_strings()
    ensures
        "
Account: "@ == "
"@ + "Account: "@,
        ")
Uptime: "@ == ")"@ + "
"@ + "Uptime: "@,
        "m
Joined rooms: "@ == "m"@ + "
"@ + "Joined rooms: "@,
        "
Cross-signing: "@ == "
"@ + "Cross-signing: "@,
        "
You: "@ == "
"@ + "You: "@,
        "
Admins: "@ == "
"@ + "Admins: "@,
        "
Admin chats: encryption "@ == "
"@ + "Admin chats: encryption "@,
{
    reveal_strlit("
");
    reveal_strlit(")");
    reveal_strlit("m");
    reveal_strlit("
Account: ");
    reveal_strlit("Account: ");
    reveal_strlit(")
Uptime: ");
    reveal_strlit("Uptime: ");
    reveal_strlit("m
Joined rooms: ");
    reveal_strlit("Joined rooms: ");
    reveal_strlit("
Cross-signing: ");
    reveal_strlit("Cross-signing: ");
    reveal_strlit("
You: ");
    reveal_strlit("You: ");
    reveal_strlit("
Admins: ");
    reveal_strlit("Admins: ");
    reveal_strlit("
Admin chats: encryption ");
    reveal_strlit("Admin chats: encryption ");
}

/// Eight lines, joined.
proof fn lemma_eight_lines(
    a: Seq<char>,
    b: Seq<char>,
    c: Seq<char>,
    d: Seq<char>,
    e: Seq<char>,
    f: Seq<char>,
    g: Seq<char>,
    h: Seq<char>,
    end: Seq<char>,
)
    ensures
        text::joined(seq![a, b, c, d, e, f, g, h], end) == a + end + b + end + c + end + d + end
            + e + end + f + end + g + end + h,
{
    assert(seq![a, b, c, d, e, f, g, h].drop_last() =~= seq![a, b, c, d, e, f, g]);
    assert(seq![a, b, c, d, e, f, g].drop_last() =~= seq![a, b, c, d, e, f]);
    assert(seq![a, b, c, d, e, f].drop_last() =~= seq![a, b, c, d, e]);
    assert(seq![a, b, c, d, e].drop_last() =~= seq![a, b, c, d]);
    assert(seq![a, b, c, d].drop_last() =~= seq![a, b, c]);
    assert(seq![a, b, c].drop_last() =~= seq![a, b]);
    assert(seq![a, b].drop_last() =~= seq![a]);
    reveal_with_fuel(text::joined, 9);
}

/// What a command says is what it holds, and so it is with what is done for
/// it.
pub proof fn law_commands_are_seen_as_they_are(
    command: Command,
    user: OwnedUserId,
    device: OwnedDeviceId,
    a: String,
    b: String,
    reason: &'static str,
    reply: bool,
    change: SettingsChange,
    store: &SettingsStore,
)
    ensures
        command_view(Some(command)) == Some(command@),
        command_view(None) is None,
        Command::Help@ is Help,
        Command::Status@ is Status,
        Command::Verify@ is Verify,
        Command::Settings@ is Settings,
        Command::SetTo(a, b)@ == CommandView::SetTo(a@, b@),
        Command::Unset(a)@ == CommandView::Unset(a@),
        Command::ResetTrust(user)@ == CommandView::ResetTrust(user@),
        Command::VerifyDevice(user, device)@ == CommandView::VerifyDevice(user@, device@),
        Command::Invalid(reason)@ == CommandView::Invalid(reason@),
        Access::Granted@ is Granted,
        Access::Outside@ is Outside,
        Access::Denied(reason)@ == AccessView::Denied(reason@),
        AdminAction::Nothing@ is Nothing,
        AdminAction::Reply(a)@ == ActionView::Reply(a@),
        (AdminAction::Run { command, reply })@ == (ActionView::Run { command: command@, reply }),
        Work::Reply(a)@ == WorkView::Reply(a@),
        Work::Status@ is Status,
        Work::CheckTrust@ is CheckTrust,
        (Work::SetTo { key: a, change })@ == (WorkView::SetTo { key: a@, change: change@ }),
        (Work::Unset { key: a, change })@ == (WorkView::Unset { key: a@, change: change@ }),
        (Work::RequestDevice { user_id: user, device_id: device })@ == (WorkView::RequestDevice {
            user: user@,
            device: device@,
        }),
        store_view(Some(store)) == Some(store@),
        store_view(None) is None,
{
}

/// Replies name what they are about: the error where a command failed, the
/// user and the device that were asked, the setting and its value.
pub proof fn law_replies_name_their_subject(a: Seq<char>, b: Seq<char>)
    ensures
        text::is_suffix(not_started(a), a),
        text::is_suffix(failure(a), a),
        text::occurs_in(refusal(a), a),
        text::occurs_in(request_sent_to(a, b), a + " ("@ + b + ")"@),
        text::is_suffix(setting_set(a, b), a + " = "@ + b),
        text::occurs_in(setting_reverted(a, b), a + " "@),
        text::occurs_in(setting_reverted(a, b), "("@ + b + ")"@),
{
    let none = Seq::<char>::empty();
    text::law_suffixes("❌ Could not start verification: "@, a);
    text::law_suffixes("❌ "@, a);
    text::lemma_occurs_between("⛔ "@, a, "."@);
    reveal_strlit(").");
    reveal_strlit(")");
    reveal_strlit(".");
    let sent = request_sent_to(a, b);
    assert(")."@ =~= ")"@ + "."@);
    assert(sent =~= "🔐 Verification request sent to "@ + (a + " ("@ + b + ")"@) + "."@);
    text::lemma_occurs_between(
        "🔐 Verification request sent to "@,
        a + " ("@ + b + ")"@,
        "."@,
    );
    assert(setting_set(a, b) =~= "✅ "@ + (a + " = "@ + b));
    text::law_suffixes("✅ "@, a + " = "@ + b);
    reveal_strlit(" reverted to the configured value (");
    reveal_strlit(" ");
    reveal_strlit("(");
    let middle = " reverted to the configured value ("@;
    let reverted = setting_reverted(a, b);
    let rest = middle.skip(1) + b + ")"@;
    assert(middle[0] == ' ');
    assert(reverted =~= "✅ "@ + (a + " "@) + rest);
    text::lemma_occurs_between("✅ "@, a + " "@, rest);
    let before = "✅ "@ + a + middle.drop_last();
    assert(middle.last() == '(');
    assert(reverted =~= before + ("("@ + b + ")"@) + none);
    text::lemma_occurs_between(before, "("@ + b + ")"@, none);
}

/// Each of the two verification commands gives its user one more grant: for
/// any device or for the one named, and for as long as grants last. Nothing
/// else about the service changes.
pub proof fn law_verification_commands_give_one_grant(
    service: verify::ServiceView,
    user: Seq<char>,
    device: Seq<char>,
    now: nat,
)
    requires
        service.grants.contains_key(user),
    ensures
        ({
            let expires_at = now + service.grant_ttl;
            let any = service_after(service, CommandView::ResetTrust(user), now);
            let one = service_after(service, CommandView::VerifyDevice(user, device), now);
            &&& any.grants[user] == service.grants[user].push(
                verify::GrantView { device_id: None, expires_at },
            )
            &&& one.grants[user] == service.grants[user].push(
                verify::GrantView { device_id: Some(device), expires_at },
            )
            &&& any == (verify::ServiceView { grants: any.grants, ..service })
            &&& one == (verify::ServiceView { grants: one.grants, ..service })
        }),
{
}

/// What a command is answered at once: the help; whom a reset is for; what is
/// wrong with a command, or that there is no such setting. Whitespace around
/// the name of a setting does not count.
pub proof fn law_what_commands_are_answered(
    console: ConsoleView,
    store: settings::SettingsView,
    stored: Option<settings::SettingsView>,
    blank: Seq<char>,
    key: Seq<char>,
    end: Seq<char>,
    value: Seq<char>,
)
    requires
        text::all_blank(blank),
        text::all_blank(end),
        key.len() > 0,
        text::no_blank(key),
    ensures
        work_of(console, CommandView::Help, stored) == WorkView::Reply(help_text(console)),
        work_of(console, CommandView::ResetTrust(key), stored) is Reply,
        text::occurs_in(work_of(console, CommandView::ResetTrust(key), stored)->0, key),
        work_of(console, CommandView::Invalid(value), stored) is Reply,
        text::occurs_in(work_of(console, CommandView::Invalid(value), stored)->0, value),
        work_of(console, CommandView::VerifyDevice(key, value), stored) == (
        WorkView::RequestDevice { user: key, device: value }),
        work_of(console, CommandView::SetTo(key, value), None) == WorkView::Reply(
            "This bot has no runtime settings."@,
        ),
        work_of(console, CommandView::Unset(key), None) == WorkView::Reply(
            "This bot has no runtime settings."@,
        ),
        ({
            let named = blank + key + end;
            let set = work_of(console, CommandView::SetTo(named, value), Some(store));
            let unset = work_of(console, CommandView::Unset(named), Some(store));
            &&& !store.defaults.contains_key(key) ==> {
                &&& set == WorkView::Reply("❌ "@ + settings::unknown_setting(key))
                &&& unset == WorkView::Reply("❌ "@ + settings::unknown_setting(key))
            }
            &&& store.defaults.contains_key(key) ==> {
                &&& set == (WorkView::SetTo {
                    key: named,
                    change: settings::ChangeView {
                        key,
                        value: Some(settings::input_value(value)),
                        shown: settings::rendered(settings::input_value(value)),
                        made_at: store.version,
                    },
                })
                &&& unset == (WorkView::Unset {
                    key: named,
                    change: settings::ChangeView {
                        key,
                        value: None,
                        shown: settings::rendered(store.defaults[key]),
                        made_at: store.version,
                    },
                })
            }
        }),
{
    text::law_trimming_takes_the_ends_off(blank, key, end);
    text::lemma_occurs_between(
        "✅ "@,
        key,
        " may verify with me once in the next few minutes."@,
    );
    text::lemma_occurs_between("❌ "@, value, ". Send !admin for help."@);
}

/// What is wrong with a verification command is said: too few or too many
/// arguments, or a user ID that is none.
pub proof fn law_malformed_verification_commands(body: Seq<char>)
    ensures
        ({
            let words = text::words(body);
            &&& words.len() > 0 && words[0] == "!reset-trust"@ ==> {
                &&& words.len() != 2 ==> command_of(body) == Some(
                    CommandView::Invalid("expected exactly one Matrix user ID"@),
                )
                &&& words.len() == 2 && ids::user_id_error(words[1]) is Some ==> command_of(body)
                    == Some(CommandView::Invalid("invalid Matrix user ID"@))
            }
            &&& words.len() > 0 && words[0] == "!verify-device"@ ==> {
                &&& words.len() != 3 ==> command_of(body) == Some(
                    CommandView::Invalid("expected exactly a Matrix user ID and device ID"@),
                )
                &&& words.len() == 3 && ids::user_id_error(words[1]) is Some ==> command_of(body)
                    == Some(CommandView::Invalid("invalid Matrix user ID"@))
            }
        }),
{
    reveal_names();
    let words = text::words(body);
    if words.len() > 1 {
        assert(words.skip(1)[0] == words[1]);
    }
}

/// The settings are shown one to a line, in ascending order.
pub proof fn law_settings_are_shown_in_order(
    store: settings::SettingsView,
    lines: Seq<Seq<char>>,
)
    requires
        lines.to_multiset() == settings::setting_lines(store).to_multiset(),
        forall|i: int, j: int|
            0 <= i < j < lines.len() ==> order::text_le(#[trigger] lines[i], #[trigger] lines[j]),
        text::joined(lines, "\n"@).len() > 0,
    ensures
        settings_text(Some(store)) == "Runtime settings:\n"@ + text::joined(lines, "\n"@),
{
    order::law_sorted_lists_stay(lines, settings::setting_lines(store));
}

} // verus!

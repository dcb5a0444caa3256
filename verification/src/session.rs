//! Matrix client construction and session restore.
//!
//! The only variation across bots is where the sqlite store lives.
use vstd::prelude::*;

use crate::config;
use crate::config::{non_empty, ConfigError, MatrixConfig};
use crate::ids;
use crate::ids::{MatrixId, OwnedUserId};
use crate::text;
use crate::time::Duration;

verus! {

/// The limits of a request to the homeserver.
#[derive(Clone, Copy, Debug)]
pub struct RequestLimits {
    pub timeout: Duration,
    pub retry_limit: usize,
    pub max_retry_time: Duration,
}

/// The limits of every request.
pub fn request_limits() -> (res: RequestLimits)
    ensures
        res.timeout@ == 30_000_000_000,
        res.retry_limit == 3,
        res.max_retry_time@ == 60_000_000_000,
{
    RequestLimits {
        timeout: Duration::from_secs(30),
        retry_limit: 3,
        max_retry_time: Duration::from_secs(60),
    }
}

/// The complaint about a missing access token.
pub open spec fn token_error(user_id: Seq<char>) -> Seq<char> {
    "No Matrix access token for "@ + user_id
        + ": set [matrix] access_token or MATRIX_ACCESS_TOKEN"@
}

/// Whether an account has an access token that is not blank.
pub open spec fn has_token(account: config::MatrixConfigView) -> bool {
    config::has_content(account.access_token)
}

/// An account needs an access token that is not blank.
pub fn require_token(cfg: &MatrixConfig) -> (res: Result<(), ConfigError>)
    ensures
        res is Ok <==> has_token(cfg@),
        match res {
            Ok(_) => config::has_content(cfg.access_token@),
            Err(error) => {
                &&& !config::has_content(cfg.access_token@)
                &&& error.message@ == token_error(cfg.user_id@)
                &&& error.cause is None
            },
        },
{
    if non_empty(cfg.access_token.as_str()) {
        return Ok(());
    }
    let mut message = "No Matrix access token for ".to_owned();
    message.push_str(cfg.user_id.as_str());
    message.push_str(": set [matrix] access_token or MATRIX_ACCESS_TOKEN");
    Err(ConfigError { message, cause: None })
}

/// The user that an account belongs to.
pub fn session_user(cfg: &MatrixConfig) -> (res: Result<OwnedUserId, ConfigError>)
    ensures
        match res {
            Ok(user_id) => ids::user_id_error(cfg.user_id@) is None && user_id@ == cfg.user_id@,
            Err(error) => {
                &&& ids::user_id_error(cfg.user_id@) is Some
                &&& error.message@ == "Invalid user_id in config"@
                &&& text::option_view(error.cause) == ids::user_id_error(cfg.user_id@)
            },
        },
{
    match OwnedUserId::parse(cfg.user_id.as_str()) {
        Ok(user_id) => Ok(user_id),
        Err(error) => Err(
            ConfigError {
                message: "Invalid user_id in config".to_owned(),
                cause: Some(error.message),
            },
        ),
    }
}

/// Which cross-signing keys the account has.
#[derive(Clone, Copy, Debug, PartialEq, Eq, Structural)]
pub struct CrossSigning {
    pub has_master: bool,
    pub has_self_signing: bool,
    pub has_user_signing: bool,
}

/// Whether every cross-signing key is present.
pub open spec fn is_complete(status: CrossSigning) -> bool {
    status.has_master && status.has_self_signing && status.has_user_signing
}

/// Whether a cross-signing key is missing, or it is not known.
pub open spec fn lacks_keys(status: Option<CrossSigning>) -> bool {
    !(status is Some && is_complete(status->0))
}

/// Whether to bootstrap cross-signing: unless every key is present.
///
/// Skipping is important: on matrix.org the upload requires UIA (m.oauth)
/// which a headless bot cannot complete. Calling bootstrap when keys are
/// already present triggers a 401 on every startup for no benefit.
pub fn needs_bootstrap(status: Option<CrossSigning>) -> (res: bool)
    ensures
        res == lacks_keys(status),
{
    match status {
        Some(s) => !(s.has_master && s.has_self_signing && s.has_user_signing),
        None => true,
    }
}

/// The state of cross-signing, in words.
pub open spec fn cross_signing_words(status: Option<CrossSigning>) -> Seq<char> {
    match status {
        Some(s) => if is_complete(s) {
            "complete"@
        } else {
            "incomplete"@
        },
        None => "unknown"@,
    }
}

/// The state of cross-signing, in words.
pub fn cross_signing_summary(status: Option<CrossSigning>) -> (res: &'static str)
    ensures
        res@ == cross_signing_words(status),
{
    match status {
        Some(s) => {
            if s.has_master && s.has_self_signing && s.has_user_signing {
                "complete"
            } else {
                "incomplete"
            }
        },
        None => "unknown",
    }
}

/// Cross-signing is left alone if and only if all three keys are known to be
/// there, which is also when it is reported as complete.
pub proof fn law_complete_cross_signing_is_left_alone(
    has_master: bool,
    has_self_signing: bool,
    has_user_signing: bool,
)
    ensures
        ({
            let status = Some(CrossSigning { has_master, has_self_signing, has_user_signing });
            &&& !lacks_keys(status) <==> has_master && has_self_signing && has_user_signing
            &&& has_master && has_self_signing && has_user_signing ==> cross_signing_words(status)
                == "complete"@
            &&& !(has_master && has_self_signing && has_user_signing) ==> cross_signing_words(
                status,
            ) == "incomplete"@
        }),
        lacks_keys(None),
        cross_signing_words(None) == "unknown"@,
{
}

/// An account has a token if and only if some character of it is more than
/// whitespace. The one from the environment will do.
pub proof fn law_which_accounts_have_a_token(
    account: config::MatrixConfigView,
    token: Seq<char>,
    key: Option<Seq<char>>,
)
    ensures
        has_token(account) <==> exists|i: int|
            0 <= i < account.access_token.len() && !text::whitespace_char(
                #[trigger] account.access_token[i],
            ),
        has_token(config::overridden(account, Some(token), key)) <==> has_token(account)
            || exists|i: int| 0 <= i < token.len() && !text::whitespace_char(#[trigger] token[i]),
{
    config::law_content_is_more_than_whitespace(account.access_token);
    config::law_content_is_more_than_whitespace(token);
}

/// The complaint about a missing token names the account.
pub proof fn law_missing_tokens_are_named(user_id: Seq<char>)
    ensures
        text::occurs_in(token_error(user_id), user_id),
{
    text::lemma_occurs_between(
        "No Matrix access token for "@,
        user_id,
        ": set [matrix] access_token or MATRIX_ACCESS_TOKEN"@,
    );
}

} // verus!

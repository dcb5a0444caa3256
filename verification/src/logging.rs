//! What the bots log.
use vstd::prelude::*;

use crate::text;

verus! {

/// The filter that applies unless `RUST_LOG` overrides it.
pub open spec fn filter_text(crate_name: Seq<char>) -> Seq<char> {
    crate_name
        + "=info,mxbot_common=info,matrix_sdk=warn,matrix_sdk_crypto=warn,matrix_sdk_base=warn,warn"@
}

/// The filter that applies unless `RUST_LOG` overrides it: the bot crate logs
/// at `info` and the SDK at `warn`.
///
/// matrix-sdk logs full sync bodies and crypto internals at info/debug; at
/// that volume it rotates the bot's own (much rarer) logs out of a capped
/// container log.
///
/// `crate_name` is the bot's crate name with underscores, e.g. `quiz_bot`.
pub fn default_filter(crate_name: &str) -> (res: String)
    ensures
        res@ == filter_text(crate_name@),
{
    let mut filter = crate_name.to_owned();
    filter.push_str(
        "=info,mxbot_common=info,matrix_sdk=warn,matrix_sdk_crypto=warn,matrix_sdk_base=warn,warn",
    );
    filter
}

/// The bot's own crate logs at `info`, and the SDK and all the rest at
/// `warn`.
pub proof fn law_what_is_logged(crate_name: Seq<char>)
    ensures
        filter_text(crate_name).take(crate_name.len() as int) == crate_name,
        filter_text(crate_name).subrange(
            crate_name.len() as int,
            crate_name.len() as int + 6,
        ) == "=info,"@,
        text::occurs_in(filter_text(crate_name), ",matrix_sdk=warn,"@),
        text::is_suffix(filter_text(crate_name), ",warn"@),
{
    let rest =
        "=info,mxbot_common=info,matrix_sdk=warn,matrix_sdk_crypto=warn,matrix_sdk_base=warn,warn"@;
    let filter = filter_text(crate_name);
    let n = crate_name.len() as int;
    reveal_strlit(
        "=info,mxbot_common=info,matrix_sdk=warn,matrix_sdk_crypto=warn,matrix_sdk_base=warn,warn",
    );
    reveal_strlit("=info,");
    reveal_strlit(",matrix_sdk=warn,");
    reveal_strlit(",warn");
    assert(filter.take(n) =~= crate_name);
    assert(filter.subrange(n, n + 6) =~= "=info,"@);
    assert(rest.len() == 88);
    assert(filter.subrange(n + 23, n + 40) =~= ",matrix_sdk=warn,"@);
    assert(text::occurs_at(filter, ",matrix_sdk=warn,"@, n + 23));
    assert(filter.subrange(n + 83, n + 88) =~= ",warn"@);
}

} // verus!

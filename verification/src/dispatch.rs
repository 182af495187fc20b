//! Command dispatcher: the pure decision core of one invocation.
//!
//! The caller (the process around this library) parses flags, performs
//! the one HTTP request and prints; this module decides everything in
//! between: which path to request for a filter set, and what text or
//! error a transport outcome yields.  A non-success transport status
//! fails with a request error before any decoding; a success status has
//! its body parsed, decoded into the typed records, and re-rendered as
//! pretty JSON — so members outside the model are dropped from the
//! output.

use vstd::prelude::*;

use crate::codec::{account_of_json, account_to_json, accounts_of_json, accounts_to_json};
use crate::codec::{json_of_account, json_of_accounts, json_of_vo, json_of_vos};
use crate::codec::{spec_account_of_json, spec_accounts_of_json, spec_vo_of_json, spec_vos_of_json};
use crate::codec::{vo_of_json, vo_to_json, vos_of_json, vos_to_json};
use crate::errors::{ClientError, ClientErrorV};
use crate::filter::{AccountFilter, AccountIntent, AccountIntentV, VoFilter, VoIntent, VoIntentV};
use crate::filter::{resolve_account, resolve_vo, spec_resolve_account, spec_resolve_vo};
use crate::json::{render_pretty, spec_render};
use crate::parse::{parse_json, sp_parse};
use crate::paths::{account_path, spec_account_path, vo_path};

verus! {

/// A transport status this client treats as success.
pub open spec fn spec_is_success(status: u16) -> bool {
    200 <= status < 300
}

/// Resolve the `account` filters and render the resource path to
/// request: the whole query-planning half of the subcommand.
pub fn account_query_path(f: &AccountFilter) -> (r: Result<String, ClientError>)
    ensures
        match spec_resolve_account(f@) {
            Ok(iv) => r matches Ok(p) && p@ == spec_account_path(iv),
            Err(ev) => r matches Err(e) && e@ == ev,
        },
{
    match resolve_account(f) {
        Ok(i) => Ok(account_path(&i)),
        Err(e) => Err(e),
    }
}

/// Resolve the `vo` filters and render the resource path to request.
pub fn vo_query_path(f: &VoFilter) -> (r: Result<String, ClientError>)
    ensures
        match spec_resolve_vo(f@) {
            Ok(iv) => r matches Ok(p) && p@ == crate::paths::spec_vo_path(iv),
            Err(ev) => r matches Err(e) && e@ == ev,
        },
{
    match resolve_vo(f) {
        Ok(i) => Ok(vo_path(&i)),
        Err(e) => Err(e),
    }
}

/// The output text an `account` response body yields under an intent,
/// when the body parses and decodes: list intents decode an array of
/// accounts, single-record intents one account, and the decoded value
/// is re-rendered as pretty JSON.
pub open spec fn spec_account_output(intent: AccountIntentV, body: Seq<char>) -> Option<
    Seq<char>,
> {
    match sp_parse(body) {
        None => None,
        Some(v) => match intent {
            AccountIntentV::FetchAllAccounts | AccountIntentV::FetchAccountsModifiedSince {
                ..
            } => match spec_accounts_of_json(v) {
                Some(l) => Some(spec_render(json_of_accounts(l), Seq::empty())),
                None => None,
            },
            _ => match spec_account_of_json(v) {
                Some(a) => Some(spec_render(json_of_account(a), Seq::empty())),
                None => None,
            },
        },
    }
}

/// The output text a `vo` response body yields under an intent.
pub open spec fn spec_vo_output(intent: VoIntentV, body: Seq<char>) -> Option<Seq<char>> {
    match sp_parse(body) {
        None => None,
        Some(v) => match intent {
            VoIntentV::FetchAllVos => match spec_vos_of_json(v) {
                Some(l) => Some(spec_render(json_of_vos(l), Seq::empty())),
                None => None,
            },
            VoIntentV::FetchVoByVscId { .. } => match spec_vo_of_json(v) {
                Some(a) => Some(spec_render(json_of_vo(a), Seq::empty())),
                None => None,
            },
        },
    }
}

/// Turn one `account` transport outcome into the final text or error.
/// A non-success status (network failures arrive as status 0) is a
/// request error and the body is never decoded.
pub fn process_account_response(intent: &AccountIntent, status: u16, body: &str) -> (r: Result<
    String,
    ClientError,
>)
    ensures
        !spec_is_success(status) ==> (r matches Err(e) && e@ == (ClientErrorV::RequestError {
            status,
        })),
        spec_is_success(status) ==> (match spec_account_output(intent@, body@) {
            Some(t) => r matches Ok(s) && s@ == t,
            None => r matches Err(e) && e@ is DecodeError,
        }),
{
    if !(200 <= status && status < 300) {
        return Err(ClientError::RequestError { status });
    }
    let doc = match parse_json(body) {
        Ok(d) => d,
        Err(e) => {
            return Err(e);
        },
    };
    match intent {
        AccountIntent::FetchAllAccounts | AccountIntent::FetchAccountsModifiedSince { .. } => {
            let list = match accounts_of_json(&doc) {
                Ok(l) => l,
                Err(e) => {
                    return Err(e);
                },
            };
            let enc = accounts_to_json(&list);
            Ok(render_pretty(&enc))
        },
        _ => {
            let account = match account_of_json(&doc) {
                Ok(a) => a,
                Err(e) => {
                    return Err(e);
                },
            };
            let enc = account_to_json(&account);
            Ok(render_pretty(&enc))
        },
    }
}

/// Turn one `vo` transport outcome into the final text or error; the
/// same discipline as the account flow.
pub fn process_vo_response(intent: &VoIntent, status: u16, body: &str) -> (r: Result<
    String,
    ClientError,
>)
    ensures
        !spec_is_success(status) ==> (r matches Err(e) && e@ == (ClientErrorV::RequestError {
            status,
        })),
        spec_is_success(status) ==> (match spec_vo_output(intent@, body@) {
            Some(t) => r matches Ok(s) && s@ == t,
            None => r matches Err(e) && e@ is DecodeError,
        }),
{
    if !(200 <= status && status < 300) {
        return Err(ClientError::RequestError { status });
    }
    let doc = match parse_json(body) {
        Ok(d) => d,
        Err(e) => {
            return Err(e);
        },
    };
    match intent {
        VoIntent::FetchAllVos => {
            let list = match vos_of_json(&doc) {
                Ok(l) => l,
                Err(e) => {
                    return Err(e);
                },
            };
            let enc = vos_to_json(&list);
            Ok(render_pretty(&enc))
        },
        VoIntent::FetchVoByVscId { .. } => {
            let vo = match vo_of_json(&doc) {
                Ok(a) => a,
                Err(e) => {
                    return Err(e);
                },
            };
            let enc = vo_to_json(&vo);
            Ok(render_pretty(&enc))
        },
    }
}

} // verus!

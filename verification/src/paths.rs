//! Path builder: renders a resolved query intent as the concrete
//! resource path of the upstream API.
//!
//! Pure functions with no side effects.  Path segments are inserted
//! verbatim: the upstream endpoints expect raw identifiers, so no
//! escaping is applied to user-supplied segments, and callers must not
//! rely on any.

use vstd::prelude::*;

use crate::filter::{AccountIntent, AccountIntentV, VoIntent, VoIntentV};

verus! {

/// The resource path for each `account` intent:
/// all accounts, accounts modified since a timestamp, one account by
/// vsc id, and one account by institute and login.
pub open spec fn spec_account_path(i: AccountIntentV) -> Seq<char> {
    match i {
        AccountIntentV::FetchAllAccounts => "api/account/"@,
        AccountIntentV::FetchAccountsModifiedSince { timestamp } => "api/account/modified/"@
            + timestamp,
        AccountIntentV::FetchAccountByVscId { vsc_id } => "api/account/"@ + vsc_id + "/"@,
        AccountIntentV::FetchAccountByInstituteLogin { institute, login } => {
            "api/account/institute/"@ + institute + "/id/"@ + login
        },
    }
}

/// The resource path for each `vo` intent: all virtual organisations,
/// and one virtual organisation by vsc id.
pub open spec fn spec_vo_path(i: VoIntentV) -> Seq<char> {
    match i {
        VoIntentV::FetchAllVos => "api/vo/"@,
        VoIntentV::FetchVoByVscId { vsc_id } => "api/vo/"@ + vsc_id,
    }
}

/// Render an `account` intent as its resource path.
pub fn account_path(i: &AccountIntent) -> (r: String)
    ensures
        r@ == spec_account_path(i@),
{
    match i {
        AccountIntent::FetchAllAccounts => String::from_str("api/account/"),
        AccountIntent::FetchAccountsModifiedSince { timestamp } => {
            let mut p = String::from_str("api/account/modified/");
            p.append(timestamp.as_str());
            p
        },
        AccountIntent::FetchAccountByVscId { vsc_id } => {
            let mut p = String::from_str("api/account/");
            p.append(vsc_id.as_str());
            p.append("/");
            proof {
                assert(p@ =~= spec_account_path(i@));
            }
            p
        },
        AccountIntent::FetchAccountByInstituteLogin { institute, login } => {
            let mut p = String::from_str("api/account/institute/");
            p.append(institute.as_str());
            p.append("/id/");
            p.append(login.as_str());
            proof {
                assert(p@ =~= spec_account_path(i@));
            }
            p
        },
    }
}

/// Render a `vo` intent as its resource path.
pub fn vo_path(i: &VoIntent) -> (r: String)
    ensures
        r@ == spec_vo_path(i@),
{
    match i {
        VoIntent::FetchAllVos => String::from_str("api/vo/"),
        VoIntent::FetchVoByVscId { vsc_id } => {
            let mut p = String::from_str("api/vo/");
            p.append(vsc_id.as_str());
            p
        },
    }
}

} // verus!

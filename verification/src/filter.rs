//! Filter resolver: maps a combination of optional user-supplied
//! filters to exactly one query intent.
//!
//! The upstream API exposes four fixed access patterns for accounts and
//! two for virtual organisations, so resolution is a small ordered
//! decision table, not a general query language.  When several filters
//! are supplied at once, the fixed priority order decides (first match
//! wins); that precedence is deliberate, not an error.

use vstd::prelude::*;

use crate::errors::{ClientError, ClientErrorV};

verus! {

/// Ghost view of an [`AccountIntent`].
pub enum AccountIntentV {
    FetchAllAccounts,
    FetchAccountByInstituteLogin { institute: Seq<char>, login: Seq<char> },
    FetchAccountsModifiedSince { timestamp: Seq<char> },
    FetchAccountByVscId { vsc_id: Seq<char> },
}

/// The single query variant resolved for the `account` subcommand.
#[derive(Clone, Debug, PartialEq, Eq)]
pub enum AccountIntent {
    /// Fetch every account record.
    FetchAllAccounts,
    /// Fetch the one account with the given login at the given institute.
    FetchAccountByInstituteLogin { institute: String, login: String },
    /// Fetch the accounts modified since a `YYYYMMDDHHMM` timestamp.
    FetchAccountsModifiedSince { timestamp: String },
    /// Fetch the one account with the given VSC id.
    FetchAccountByVscId { vsc_id: String },
}

impl View for AccountIntent {
    type V = AccountIntentV;

    open spec fn view(&self) -> AccountIntentV {
        match self {
            AccountIntent::FetchAllAccounts => AccountIntentV::FetchAllAccounts,
            AccountIntent::FetchAccountByInstituteLogin { institute, login } => {
                AccountIntentV::FetchAccountByInstituteLogin {
                    institute: institute@,
                    login: login@,
                }
            },
            AccountIntent::FetchAccountsModifiedSince { timestamp } => {
                AccountIntentV::FetchAccountsModifiedSince { timestamp: timestamp@ }
            },
            AccountIntent::FetchAccountByVscId { vsc_id } => {
                AccountIntentV::FetchAccountByVscId { vsc_id: vsc_id@ }
            },
        }
    }
}

/// Ghost view of a [`VoIntent`].
pub enum VoIntentV {
    FetchAllVos,
    FetchVoByVscId { vsc_id: Seq<char> },
}

/// The single query variant resolved for the `vo` subcommand.
#[derive(Clone, Debug, PartialEq, Eq)]
pub enum VoIntent {
    /// Fetch every virtual organisation record.
    FetchAllVos,
    /// Fetch the one virtual organisation with the given VSC id.
    FetchVoByVscId { vsc_id: String },
}

impl View for VoIntent {
    type V = VoIntentV;

    open spec fn view(&self) -> VoIntentV {
        match self {
            VoIntent::FetchAllVos => VoIntentV::FetchAllVos,
            VoIntent::FetchVoByVscId { vsc_id } => {
                VoIntentV::FetchVoByVscId { vsc_id: vsc_id@ }
            },
        }
    }
}

/// Ghost view of an [`AccountFilter`].
pub struct AccountFilterV {
    pub all: bool,
    pub institute: Option<Seq<char>>,
    pub institute_login: Option<Seq<char>>,
    pub modified_since: Option<Seq<char>>,
    pub vsc_id: Option<Seq<char>>,
}

/// The optional filters the `account` subcommand accepts.
#[derive(Clone, Debug, PartialEq, Eq, Default)]
pub struct AccountFilter {
    pub all: bool,
    pub institute: Option<String>,
    pub institute_login: Option<String>,
    pub modified_since: Option<String>,
    pub vsc_id: Option<String>,
}

impl View for AccountFilter {
    type V = AccountFilterV;

    open spec fn view(&self) -> AccountFilterV {
        AccountFilterV {
            all: self.all,
            institute: self.institute.deep_view(),
            institute_login: self.institute_login.deep_view(),
            modified_since: self.modified_since.deep_view(),
            vsc_id: self.vsc_id.deep_view(),
        }
    }
}

/// The optional filters the `vo` subcommand accepts.
#[derive(Clone, Debug, PartialEq, Eq, Default)]
pub struct VoFilter {
    pub all: bool,
    pub vsc_id: Option<String>,
}

/// Ghost view of a [`VoFilter`].
pub struct VoFilterV {
    pub all: bool,
    pub vsc_id: Option<Seq<char>>,
}

impl View for VoFilter {
    type V = VoFilterV;

    open spec fn view(&self) -> VoFilterV {
        VoFilterV { all: self.all, vsc_id: self.vsc_id.deep_view() }
    }
}

/// The decision table for the `account` subcommand, in priority order:
/// `all`, then institute together with login, then modified-since, then
/// vsc id; with no filter left, resolution is a usage error.
pub open spec fn spec_resolve_account(f: AccountFilterV) -> Result<AccountIntentV, ClientErrorV> {
    if f.all {
        Ok(AccountIntentV::FetchAllAccounts)
    } else if f.institute is Some && f.institute_login is Some {
        Ok(AccountIntentV::FetchAccountByInstituteLogin {
            institute: f.institute->0,
            login: f.institute_login->0,
        })
    } else if f.modified_since is Some {
        Ok(AccountIntentV::FetchAccountsModifiedSince { timestamp: f.modified_since->0 })
    } else if f.vsc_id is Some {
        Ok(AccountIntentV::FetchAccountByVscId { vsc_id: f.vsc_id->0 })
    } else {
        Err(ClientErrorV::MissingRequiredArgument)
    }
}

/// The decision table for the `vo` subcommand: `all`, then vsc id, else
/// a usage error.
pub open spec fn spec_resolve_vo(f: VoFilterV) -> Result<VoIntentV, ClientErrorV> {
    if f.all {
        Ok(VoIntentV::FetchAllVos)
    } else if f.vsc_id is Some {
        Ok(VoIntentV::FetchVoByVscId { vsc_id: f.vsc_id->0 })
    } else {
        Err(ClientErrorV::MissingRequiredArgument)
    }
}

/// Resolve the `account` filters to their single query intent, per the
/// fixed priority order of [`spec_resolve_account`].
pub fn resolve_account(f: &AccountFilter) -> (r: Result<AccountIntent, ClientError>)
    ensures
        match spec_resolve_account(f@) {
            Ok(iv) => r matches Ok(i) && i@ == iv,
            Err(ev) => r matches Err(e) && e@ == ev,
        },
{
    if f.all {
        return Ok(AccountIntent::FetchAllAccounts);
    }
    if let Some(institute) = &f.institute {
        if let Some(login) = &f.institute_login {
            return Ok(
                AccountIntent::FetchAccountByInstituteLogin {
                    institute: institute.clone(),
                    login: login.clone(),
                },
            );
        }
    }
    if let Some(timestamp) = &f.modified_since {
        return Ok(AccountIntent::FetchAccountsModifiedSince { timestamp: timestamp.clone() });
    }
    if let Some(vsc_id) = &f.vsc_id {
        return Ok(AccountIntent::FetchAccountByVscId { vsc_id: vsc_id.clone() });
    }
    Err(ClientError::MissingRequiredArgument)
}

/// Resolve the `vo` filters to their single query intent, per the fixed
/// priority order of [`spec_resolve_vo`].
pub fn resolve_vo(f: &VoFilter) -> (r: Result<VoIntent, ClientError>)
    ensures
        match spec_resolve_vo(f@) {
            Ok(iv) => r matches Ok(i) && i@ == iv,
            Err(ev) => r matches Err(e) && e@ == ev,
        },
{
    if f.all {
        return Ok(VoIntent::FetchAllVos);
    }
    if let Some(vsc_id) = &f.vsc_id {
        return Ok(VoIntent::FetchVoByVscId { vsc_id: vsc_id.clone() });
    }
    Err(ClientError::MissingRequiredArgument)
}

/// Resolution is a total, deterministic function of the filter set:
/// every combination yields exactly one verdict, and the verdict
/// follows the fixed priority order — `all` first, then institute
/// together with login, then modified-since, then vsc id, and a usage
/// error only when no filter is supplied.
pub proof fn lemma_account_resolution_total(f: AccountFilterV)
    ensures
        f.all ==> spec_resolve_account(f) == Ok::<_, ClientErrorV>(
            AccountIntentV::FetchAllAccounts,
        ),
        !f.all && f.institute is Some && f.institute_login is Some ==> spec_resolve_account(f)
            == Ok::<_, ClientErrorV>(
            AccountIntentV::FetchAccountByInstituteLogin {
                institute: f.institute->0,
                login: f.institute_login->0,
            },
        ),
        !f.all && !(f.institute is Some && f.institute_login is Some) && f.modified_since is Some
            ==> spec_resolve_account(f) == Ok::<_, ClientErrorV>(
            AccountIntentV::FetchAccountsModifiedSince { timestamp: f.modified_since->0 },
        ),
        !f.all && !(f.institute is Some && f.institute_login is Some) && f.modified_since is None
            && f.vsc_id is Some ==> spec_resolve_account(f) == Ok::<_, ClientErrorV>(
            AccountIntentV::FetchAccountByVscId { vsc_id: f.vsc_id->0 },
        ),
        !f.all && !(f.institute is Some && f.institute_login is Some) && f.modified_since is None
            && f.vsc_id is None ==> spec_resolve_account(f) == Err::<AccountIntentV, _>(
            ClientErrorV::MissingRequiredArgument,
        ),
{
}

/// The `vo` resolver is likewise total and deterministic: `all` wins,
/// then vsc id, and a usage error only when neither is supplied.
pub proof fn lemma_vo_resolution_total(f: VoFilterV)
    ensures
        f.all ==> spec_resolve_vo(f) == Ok::<_, ClientErrorV>(VoIntentV::FetchAllVos),
        !f.all && f.vsc_id is Some ==> spec_resolve_vo(f) == Ok::<_, ClientErrorV>(
            VoIntentV::FetchVoByVscId { vsc_id: f.vsc_id->0 },
        ),
        !f.all && f.vsc_id is None ==> spec_resolve_vo(f) == Err::<VoIntentV, _>(
            ClientErrorV::MissingRequiredArgument,
        ),
{
}

} // verus!

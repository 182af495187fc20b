//! Typed record model: the entity shapes the upstream API returns.
//!
//! Each executable record type has a ghost counterpart (its view) whose
//! string fields are `Seq<char>`; every contract in the crate speaks of
//! these views.

use vstd::prelude::*;

verus! {

/// Provisioning status of an account or virtual organisation.
///
/// The wire format spells these in lower case (`"active"`,
/// `"forceinactive"`, ...); unknown strings fail decoding rather than
/// mapping to a default.
#[derive(Clone, Copy, PartialEq, Eq, Structural, Debug)]
pub enum Status {
    Active,
    Inactive,
    Modified,
    New,
    ForceInactive,
    ForceActive,
}

/// Home institute of a person or virtual organisation; a value object
/// holding only the institute's name.
#[derive(Clone, Debug, PartialEq, Eq)]
pub struct Institute {
    pub name: String,
}

impl View for Institute {
    type V = Seq<char>;

    open spec fn view(&self) -> Seq<char> {
        self.name@
    }
}

impl DeepView for Institute {
    type V = Seq<char>;

    open spec fn deep_view(&self) -> Seq<char> {
        self.name@
    }
}

/// Ghost view of a [`Person`].
pub struct PersonV {
    pub gecos: Seq<char>,
    pub institute: Seq<char>,
    pub institute_login: Seq<char>,
    pub realeppn: Seq<char>,
}

/// The person behind an account: display name, home institute and the
/// identity-federation principal name.
#[derive(Clone, Debug, PartialEq, Eq)]
pub struct Person {
    pub gecos: String,
    pub institute: Institute,
    pub institute_login: String,
    pub realeppn: String,
}

impl View for Person {
    type V = PersonV;

    open spec fn view(&self) -> PersonV {
        PersonV {
            gecos: self.gecos@,
            institute: self.institute@,
            institute_login: self.institute_login@,
            realeppn: self.realeppn@,
        }
    }
}

impl DeepView for Person {
    type V = PersonV;

    open spec fn deep_view(&self) -> PersonV {
        self@
    }
}

/// Ghost view of an [`Account`].
pub struct AccountV {
    pub vsc_id: Seq<char>,
    pub status: Status,
    pub isactive: bool,
    pub force_active: bool,
    pub expiry_date: Option<Seq<char>>,
    pub grace_until: Option<Seq<char>>,
    pub vsc_id_number: u64,
    pub home_directory: Seq<char>,
    pub data_directory: Seq<char>,
    pub scratch_directory: Seq<char>,
    pub login_shell: Seq<char>,
    pub broken: bool,
    pub email: Seq<char>,
    pub research_field: Seq<Seq<char>>,
    pub create_timestamp: Seq<char>,
    pub person: PersonV,
    pub home_on_scratch: bool,
}

/// Identity and provisioning record of one account, a read-only
/// snapshot as the upstream service reports it.
#[derive(Clone, Debug, PartialEq, Eq)]
pub struct Account {
    pub vsc_id: String,
    pub status: Status,
    pub isactive: bool,
    pub force_active: bool,
    pub expiry_date: Option<String>,
    pub grace_until: Option<String>,
    pub vsc_id_number: u64,
    pub home_directory: String,
    pub data_directory: String,
    pub scratch_directory: String,
    pub login_shell: String,
    pub broken: bool,
    pub email: String,
    pub research_field: Vec<String>,
    pub create_timestamp: String,
    pub person: Person,
    pub home_on_scratch: bool,
}

impl View for Account {
    type V = AccountV;

    open spec fn view(&self) -> AccountV {
        AccountV {
            vsc_id: self.vsc_id@,
            status: self.status,
            isactive: self.isactive,
            force_active: self.force_active,
            expiry_date: self.expiry_date.deep_view(),
            grace_until: self.grace_until.deep_view(),
            vsc_id_number: self.vsc_id_number,
            home_directory: self.home_directory@,
            data_directory: self.data_directory@,
            scratch_directory: self.scratch_directory@,
            login_shell: self.login_shell@,
            broken: self.broken,
            email: self.email@,
            research_field: self.research_field.deep_view(),
            create_timestamp: self.create_timestamp@,
            person: self.person@,
            home_on_scratch: self.home_on_scratch,
        }
    }
}

impl DeepView for Account {
    type V = AccountV;

    open spec fn deep_view(&self) -> AccountV {
        self@
    }
}

/// Ghost view of a [`VirtualOrganisation`].
pub struct VirtualOrganisationV {
    pub vsc_id: Seq<char>,
    pub status: Status,
    pub vsc_id_number: u64,
    pub institute: Seq<char>,
    pub fairshare: u32,
    pub data_path: Seq<char>,
    pub scratch_path: Seq<char>,
    pub description: Seq<char>,
    pub members: Seq<Seq<char>>,
    pub moderators: Seq<Seq<char>>,
}

/// A virtual organisation: a group entity with members, moderators and
/// a fairshare scheduling weight.
#[derive(Clone, Debug, PartialEq, Eq)]
pub struct VirtualOrganisation {
    pub vsc_id: String,
    pub status: Status,
    pub vsc_id_number: u64,
    pub institute: Institute,
    pub fairshare: u32,
    pub data_path: String,
    pub scratch_path: String,
    pub description: String,
    pub members: Vec<String>,
    pub moderators: Vec<String>,
}

impl View for VirtualOrganisation {
    type V = VirtualOrganisationV;

    open spec fn view(&self) -> VirtualOrganisationV {
        VirtualOrganisationV {
            vsc_id: self.vsc_id@,
            status: self.status,
            vsc_id_number: self.vsc_id_number,
            institute: self.institute@,
            fairshare: self.fairshare,
            data_path: self.data_path@,
            scratch_path: self.scratch_path@,
            description: self.description@,
            members: self.members.deep_view(),
            moderators: self.moderators.deep_view(),
        }
    }
}

impl DeepView for VirtualOrganisation {
    type V = VirtualOrganisationV;

    open spec fn deep_view(&self) -> VirtualOrganisationV {
        self@
    }
}

/// Response shape of the "all accounts" and "modified since" queries:
/// an ordered sequence of accounts with no identity of its own.
#[derive(Clone, Debug, PartialEq, Eq)]
pub struct Accounts(pub Vec<Account>);

impl View for Accounts {
    type V = Seq<AccountV>;

    open spec fn view(&self) -> Seq<AccountV> {
        self.0.deep_view()
    }
}

/// Response shape of the "all virtual organisations" query.
#[derive(Clone, Debug, PartialEq, Eq)]
pub struct VirtualOrganisations(pub Vec<VirtualOrganisation>);

impl View for VirtualOrganisations {
    type V = Seq<VirtualOrganisationV>;

    open spec fn view(&self) -> Seq<VirtualOrganisationV> {
        self.0.deep_view()
    }
}

} // verus!

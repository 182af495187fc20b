//! Response decoder and encoder: typed records to and from JSON
//! documents.
//!
//! Decoding follows the upstream wire shape: an object is read by key
//! (any member order), members outside the model are dropped, optional
//! dates are absent or `null` or a string, and an unknown status string
//! fails decoding.  Encoding produces the documents the decoder reads
//! back: the round-trip lemmas at the end state that decoding an
//! encoded record yields the record unchanged.

use vstd::prelude::*;

use crate::errors::{ClientError, ClientErrorV};
use crate::json::{Json, JsonVal, jview, jviews, kviews};
use crate::json::{lemma_jviews_index, lemma_jviews_push, lemma_kviews_index, lemma_kviews_push};
use crate::model::{Account, AccountV, Accounts, Institute, Person, PersonV, Status};
use crate::model::{VirtualOrganisation, VirtualOrganisationV, VirtualOrganisations};

verus! {

// ------------------------------------------------------------------
// Status names

/// The wire spelling of each status.
pub open spec fn spec_status_str(st: Status) -> Seq<char> {
    match st {
        Status::Active => "active"@,
        Status::Inactive => "inactive"@,
        Status::Modified => "modified"@,
        Status::New => "new"@,
        Status::ForceInactive => "forceinactive"@,
        Status::ForceActive => "forceactive"@,
    }
}

/// The status a wire spelling names, if any.
pub open spec fn spec_status_of(s: Seq<char>) -> Option<Status> {
    if s == "active"@ {
        Some(Status::Active)
    } else if s == "inactive"@ {
        Some(Status::Inactive)
    } else if s == "modified"@ {
        Some(Status::Modified)
    } else if s == "new"@ {
        Some(Status::New)
    } else if s == "forceinactive"@ {
        Some(Status::ForceInactive)
    } else if s == "forceactive"@ {
        Some(Status::ForceActive)
    } else {
        None
    }
}

/// Spell a status for the wire.
pub fn status_str(st: Status) -> (r: String)
    ensures
        r@ == spec_status_str(st),
{
    match st {
        Status::Active => String::from_str("active"),
        Status::Inactive => String::from_str("inactive"),
        Status::Modified => String::from_str("modified"),
        Status::New => String::from_str("new"),
        Status::ForceInactive => String::from_str("forceinactive"),
        Status::ForceActive => String::from_str("forceactive"),
    }
}

/// Read a status from its wire spelling.
pub fn status_of_string(s: &String) -> (r: Option<Status>)
    ensures
        r == spec_status_of(s@),
{
    if *s == String::from_str("active") {
        Some(Status::Active)
    } else if *s == String::from_str("inactive") {
        Some(Status::Inactive)
    } else if *s == String::from_str("modified") {
        Some(Status::Modified)
    } else if *s == String::from_str("new") {
        Some(Status::New)
    } else if *s == String::from_str("forceinactive") {
        Some(Status::ForceInactive)
    } else if *s == String::from_str("forceactive") {
        Some(Status::ForceActive)
    } else {
        None
    }
}

/// Every status spelling reads back as the status it spells.
pub proof fn lemma_status_round_trip(st: Status)
    ensures
        spec_status_of(spec_status_str(st)) == Some(st),
{
    broadcast use vstd::string::group_string_axioms;

    reveal_strlit("active");
    reveal_strlit("inactive");
    reveal_strlit("modified");
    reveal_strlit("new");
    reveal_strlit("forceinactive");
    reveal_strlit("forceactive");
    assert("active"@.len() == 6);
    assert("inactive"@.len() == 8);
    assert("modified"@.len() == 8);
    assert("new"@.len() == 3);
    assert("forceinactive"@.len() == 13);
    assert("forceactive"@.len() == 11);
    assert("inactive"@[0] == 'i');
    assert("modified"@[0] == 'm');
}

// ------------------------------------------------------------------
// Object member lookup

/// The value under the first member with the given key, if any.
pub open spec fn lookup(ms: Seq<(Seq<char>, JsonVal)>, key: Seq<char>) -> Option<JsonVal>
    decreases ms.len(),
{
    if ms.len() == 0 {
        None
    } else if ms[0].0 == key {
        Some(ms[0].1)
    } else {
        lookup(ms.drop_first(), key)
    }
}

/// The string member under a key.
pub open spec fn get_str(ms: Seq<(Seq<char>, JsonVal)>, key: Seq<char>) -> Option<Seq<char>> {
    match lookup(ms, key) {
        Some(JsonVal::Str(s)) => Some(s),
        _ => None,
    }
}

/// The boolean member under a key.
pub open spec fn get_bool(ms: Seq<(Seq<char>, JsonVal)>, key: Seq<char>) -> Option<bool> {
    match lookup(ms, key) {
        Some(JsonVal::Bool(b)) => Some(b),
        _ => None,
    }
}

/// The unsigned-integer member under a key.
pub open spec fn get_u64(ms: Seq<(Seq<char>, JsonVal)>, key: Seq<char>) -> Option<u64> {
    match lookup(ms, key) {
        Some(JsonVal::UInt(n)) => Some(n),
        _ => None,
    }
}

/// The 32-bit unsigned-integer member under a key; larger values do
/// not decode.
pub open spec fn get_u32(ms: Seq<(Seq<char>, JsonVal)>, key: Seq<char>) -> Option<u32> {
    match lookup(ms, key) {
        Some(JsonVal::UInt(n)) => if n <= u32::MAX {
            Some(n as u32)
        } else {
            None
        },
        _ => None,
    }
}

/// An optional string member: an absent member and `null` both read as
/// `None`, a string as `Some`.
pub open spec fn get_opt_str(ms: Seq<(Seq<char>, JsonVal)>, key: Seq<char>) -> Option<
    Option<Seq<char>>,
> {
    match lookup(ms, key) {
        None => Some(None),
        Some(JsonVal::Null) => Some(None),
        Some(JsonVal::Str(s)) => Some(Some(s)),
        _ => None,
    }
}

/// An array of strings, element by element.
pub open spec fn strings_of_list(es: Seq<JsonVal>) -> Option<Seq<Seq<char>>>
    decreases es.len(),
{
    if es.len() == 0 {
        Some(Seq::empty())
    } else {
        match es[0] {
            JsonVal::Str(s) => match strings_of_list(es.drop_first()) {
                Some(t) => Some(seq![s] + t),
                None => None,
            },
            _ => None,
        }
    }
}

/// The string-list member under a key.
pub open spec fn get_strs(ms: Seq<(Seq<char>, JsonVal)>, key: Seq<char>) -> Option<
    Seq<Seq<char>>,
> {
    match lookup(ms, key) {
        Some(JsonVal::Arr(es)) => strings_of_list(es),
        _ => None,
    }
}

/// The status member under a key.
pub open spec fn get_status(ms: Seq<(Seq<char>, JsonVal)>, key: Seq<char>) -> Option<Status> {
    match get_str(ms, key) {
        Some(s) => spec_status_of(s),
        None => None,
    }
}

// ------------------------------------------------------------------
// Encoding, ghost level

/// An optional string as JSON: `null` when absent.
pub open spec fn json_of_opt_str(o: Option<Seq<char>>) -> JsonVal {
    match o {
        Some(s) => JsonVal::Str(s),
        None => JsonVal::Null,
    }
}

/// The elements of a string list as JSON strings.
pub open spec fn str_items(ss: Seq<Seq<char>>) -> Seq<JsonVal> {
    Seq::new(ss.len(), |i: int| JsonVal::Str(ss[i]))
}

/// A string list as a JSON array.
pub open spec fn json_of_strings(ss: Seq<Seq<char>>) -> JsonVal {
    JsonVal::Arr(str_items(ss))
}

/// A person as a JSON object; the institute is nested as an object of
/// its own with the single member `name`.
pub open spec fn json_of_person(p: PersonV) -> JsonVal {
    JsonVal::Obj(
        seq![
            ("gecos"@, JsonVal::Str(p.gecos)),
            ("institute"@, JsonVal::Obj(seq![("name"@, JsonVal::Str(p.institute))])),
            ("institute_login"@, JsonVal::Str(p.institute_login)),
            ("realeppn"@, JsonVal::Str(p.realeppn)),
        ],
    )
}

/// An account as a JSON object, one member per model field.
pub open spec fn json_of_account(a: AccountV) -> JsonVal {
    JsonVal::Obj(
        seq![
            ("vsc_id"@, JsonVal::Str(a.vsc_id)),
            ("status"@, JsonVal::Str(spec_status_str(a.status))),
            ("isactive"@, JsonVal::Bool(a.isactive)),
            ("force_active"@, JsonVal::Bool(a.force_active)),
            ("expiry_date"@, json_of_opt_str(a.expiry_date)),
            ("grace_until"@, json_of_opt_str(a.grace_until)),
            ("vsc_id_number"@, JsonVal::UInt(a.vsc_id_number)),
            ("home_directory"@, JsonVal::Str(a.home_directory)),
            ("data_directory"@, JsonVal::Str(a.data_directory)),
            ("scratch_directory"@, JsonVal::Str(a.scratch_directory)),
            ("login_shell"@, JsonVal::Str(a.login_shell)),
            ("broken"@, JsonVal::Bool(a.broken)),
            ("email"@, JsonVal::Str(a.email)),
            ("research_field"@, json_of_strings(a.research_field)),
            ("create_timestamp"@, JsonVal::Str(a.create_timestamp)),
            ("person"@, json_of_person(a.person)),
            ("home_on_scratch"@, JsonVal::Bool(a.home_on_scratch)),
        ],
    )
}

/// A virtual organisation as a JSON object, one member per model field.
pub open spec fn json_of_vo(v: VirtualOrganisationV) -> JsonVal {
    JsonVal::Obj(
        seq![
            ("vsc_id"@, JsonVal::Str(v.vsc_id)),
            ("status"@, JsonVal::Str(spec_status_str(v.status))),
            ("vsc_id_number"@, JsonVal::UInt(v.vsc_id_number)),
            ("institute"@, JsonVal::Obj(seq![("name"@, JsonVal::Str(v.institute))])),
            ("fairshare"@, JsonVal::UInt(v.fairshare as u64)),
            ("data_path"@, JsonVal::Str(v.data_path)),
            ("scratch_path"@, JsonVal::Str(v.scratch_path)),
            ("description"@, JsonVal::Str(v.description)),
            ("members"@, json_of_strings(v.members)),
            ("moderators"@, json_of_strings(v.moderators)),
        ],
    )
}

// ------------------------------------------------------------------
// Decoding, ghost level

/// The person an object decodes to, if it has the required shape.
pub open spec fn spec_person_of_json(v: JsonVal) -> Option<PersonV> {
    match v {
        JsonVal::Obj(ms) => {
            let gecos = get_str(ms, "gecos"@);
            let institute = (match lookup(ms, "institute"@) {
                Some(JsonVal::Obj(ims)) => get_str(ims, "name"@),
                _ => None,
            });
            let institute_login = get_str(ms, "institute_login"@);
            let realeppn = get_str(ms, "realeppn"@);
            if gecos is Some && institute is Some && institute_login is Some && realeppn
                is Some {
                Some(
                    PersonV {
                        gecos: gecos->0,
                        institute: institute->0,
                        institute_login: institute_login->0,
                        realeppn: realeppn->0,
                    },
                )
            } else {
                None
            }
        },
        _ => None,
    }
}

/// The account an object decodes to, if every required member has the
/// required shape; members outside the model are ignored.
pub open spec fn spec_account_of_json(v: JsonVal) -> Option<AccountV> {
    match v {
        JsonVal::Obj(ms) => {
            let vsc_id = get_str(ms, "vsc_id"@);
            let status = get_status(ms, "status"@);
            let isactive = get_bool(ms, "isactive"@);
            let force_active = get_bool(ms, "force_active"@);
            let expiry_date = get_opt_str(ms, "expiry_date"@);
            let grace_until = get_opt_str(ms, "grace_until"@);
            let vsc_id_number = get_u64(ms, "vsc_id_number"@);
            let home_directory = get_str(ms, "home_directory"@);
            let data_directory = get_str(ms, "data_directory"@);
            let scratch_directory = get_str(ms, "scratch_directory"@);
            let login_shell = get_str(ms, "login_shell"@);
            let broken = get_bool(ms, "broken"@);
            let email = get_str(ms, "email"@);
            let research_field = get_strs(ms, "research_field"@);
            let create_timestamp = get_str(ms, "create_timestamp"@);
            let person = (match lookup(ms, "person"@) {
                Some(pv) => spec_person_of_json(pv),
                None => None,
            });
            let home_on_scratch = get_bool(ms, "home_on_scratch"@);
            if vsc_id is Some && status is Some && isactive is Some && force_active is Some
                && expiry_date is Some && grace_until is Some && vsc_id_number is Some
                && home_directory is Some && data_directory is Some && scratch_directory is Some
                && login_shell is Some && broken is Some && email is Some && research_field
                is Some && create_timestamp is Some && person is Some && home_on_scratch
                is Some {
                Some(
                    AccountV {
                        vsc_id: vsc_id->0,
                        status: status->0,
                        isactive: isactive->0,
                        force_active: force_active->0,
                        expiry_date: expiry_date->0,
                        grace_until: grace_until->0,
                        vsc_id_number: vsc_id_number->0,
                        home_directory: home_directory->0,
                        data_directory: data_directory->0,
                        scratch_directory: scratch_directory->0,
                        login_shell: login_shell->0,
                        broken: broken->0,
                        email: email->0,
                        research_field: research_field->0,
                        create_timestamp: create_timestamp->0,
                        person: person->0,
                        home_on_scratch: home_on_scratch->0,
                    },
                )
            } else {
                None
            }
        },
        _ => None,
    }
}

/// The virtual organisation an object decodes to, if every required
/// member has the required shape.
pub open spec fn spec_vo_of_json(v: JsonVal) -> Option<VirtualOrganisationV> {
    match v {
        JsonVal::Obj(ms) => {
            let vsc_id = get_str(ms, "vsc_id"@);
            let status = get_status(ms, "status"@);
            let vsc_id_number = get_u64(ms, "vsc_id_number"@);
            let institute = (match lookup(ms, "institute"@) {
                Some(JsonVal::Obj(ims)) => get_str(ims, "name"@),
                _ => None,
            });
            let fairshare = get_u32(ms, "fairshare"@);
            let data_path = get_str(ms, "data_path"@);
            let scratch_path = get_str(ms, "scratch_path"@);
            let description = get_str(ms, "description"@);
            let members = get_strs(ms, "members"@);
            let moderators = get_strs(ms, "moderators"@);
            if vsc_id is Some && status is Some && vsc_id_number is Some && institute is Some
                && fairshare is Some && data_path is Some && scratch_path is Some && description
                is Some && members is Some && moderators is Some {
                Some(
                    VirtualOrganisationV {
                        vsc_id: vsc_id->0,
                        status: status->0,
                        vsc_id_number: vsc_id_number->0,
                        institute: institute->0,
                        fairshare: fairshare->0,
                        data_path: data_path->0,
                        scratch_path: scratch_path->0,
                        description: description->0,
                        members: members->0,
                        moderators: moderators->0,
                    },
                )
            } else {
                None
            }
        },
        _ => None,
    }
}

// ------------------------------------------------------------------
// Decoding, list level

/// A list of accounts, element by element.
pub open spec fn accounts_of_list(es: Seq<JsonVal>) -> Option<Seq<AccountV>>
    decreases es.len(),
{
    if es.len() == 0 {
        Some(Seq::empty())
    } else {
        match spec_account_of_json(es[0]) {
            Some(a) => match accounts_of_list(es.drop_first()) {
                Some(t) => Some(seq![a] + t),
                None => None,
            },
            None => None,
        }
    }
}

/// The account list an array decodes to.
pub open spec fn spec_accounts_of_json(v: JsonVal) -> Option<Seq<AccountV>> {
    match v {
        JsonVal::Arr(es) => accounts_of_list(es),
        _ => None,
    }
}

/// A list of virtual organisations, element by element.
pub open spec fn vos_of_list(es: Seq<JsonVal>) -> Option<Seq<VirtualOrganisationV>>
    decreases es.len(),
{
    if es.len() == 0 {
        Some(Seq::empty())
    } else {
        match spec_vo_of_json(es[0]) {
            Some(a) => match vos_of_list(es.drop_first()) {
                Some(t) => Some(seq![a] + t),
                None => None,
            },
            None => None,
        }
    }
}

/// The virtual-organisation list an array decodes to.
pub open spec fn spec_vos_of_json(v: JsonVal) -> Option<Seq<VirtualOrganisationV>> {
    match v {
        JsonVal::Arr(es) => vos_of_list(es),
        _ => None,
    }
}

/// The elements of an account list as JSON objects.
pub open spec fn account_items(list: Seq<AccountV>) -> Seq<JsonVal> {
    Seq::new(list.len(), |i: int| json_of_account(list[i]))
}

/// An account list as a JSON array.
pub open spec fn json_of_accounts(list: Seq<AccountV>) -> JsonVal {
    JsonVal::Arr(account_items(list))
}

/// The elements of a virtual-organisation list as JSON objects.
pub open spec fn vo_items(list: Seq<VirtualOrganisationV>) -> Seq<JsonVal> {
    Seq::new(list.len(), |i: int| json_of_vo(list[i]))
}

/// A virtual-organisation list as a JSON array.
pub open spec fn json_of_vos(list: Seq<VirtualOrganisationV>) -> JsonVal {
    JsonVal::Arr(vo_items(list))
}

// ------------------------------------------------------------------
// Round-trip laws

/// A string list reads back from its array encoding unchanged.
pub proof fn lemma_strings_round_trip(ss: Seq<Seq<char>>)
    ensures
        strings_of_list(str_items(ss)) == Some(ss),
    decreases ss.len(),
{
    if ss.len() == 0 {
        assert(str_items(ss) =~= Seq::<JsonVal>::empty());
        assert(Some(Seq::<Seq<char>>::empty()) == Some(ss)) by {
            assert(Seq::<Seq<char>>::empty() =~= ss);
        }
    } else {
        assert(str_items(ss)[0] == JsonVal::Str(ss[0]));
        assert(str_items(ss).drop_first() =~= str_items(ss.drop_first()));
        lemma_strings_round_trip(ss.drop_first());
        assert(seq![ss[0]] + ss.drop_first() =~= ss);
    }
}

/// Decoding an encoded person yields the person unchanged: the person
/// leg of the round-trip law.
pub proof fn lemma_person_round_trip(p: PersonV)
    ensures
        spec_person_of_json(json_of_person(p)) == Some(p),
{
    broadcast use vstd::string::group_string_axioms;

    reveal_strlit("gecos");
    reveal_strlit("institute");
    reveal_strlit("institute_login");
    reveal_strlit("realeppn");
    reveal_strlit("name");
    assert("gecos"@.len() == 5);
    assert("institute"@.len() == 9);
    assert("institute_login"@.len() == 15);
    assert("realeppn"@.len() == 8);
    assert("name"@.len() == 4);
    reveal_with_fuel(lookup, 6);
    let ms = json_of_person(p)->Obj_0;
    assert(lookup(ms, "gecos"@) == Some(JsonVal::Str(p.gecos)));
    assert(lookup(ms, "institute"@) == Some(
        JsonVal::Obj(seq![("name"@, JsonVal::Str(p.institute))]),
    ));
    assert(lookup(seq![("name"@, JsonVal::Str(p.institute))], "name"@) == Some(
        JsonVal::Str(p.institute),
    ));
    assert(lookup(ms, "institute_login"@) == Some(JsonVal::Str(p.institute_login)));
    assert(lookup(ms, "realeppn"@) == Some(JsonVal::Str(p.realeppn)));
}

/// Decoding an encoded account yields the account unchanged: the
/// account leg of the round-trip law.
pub proof fn lemma_account_round_trip(a: AccountV)
    ensures
        spec_account_of_json(json_of_account(a)) == Some(a),
{
    broadcast use vstd::string::group_string_axioms;

    reveal_strlit("vsc_id");
    reveal_strlit("status");
    reveal_strlit("isactive");
    reveal_strlit("force_active");
    reveal_strlit("expiry_date");
    reveal_strlit("grace_until");
    reveal_strlit("vsc_id_number");
    reveal_strlit("home_directory");
    reveal_strlit("data_directory");
    reveal_strlit("scratch_directory");
    reveal_strlit("login_shell");
    reveal_strlit("broken");
    reveal_strlit("email");
    reveal_strlit("research_field");
    reveal_strlit("create_timestamp");
    reveal_strlit("person");
    reveal_strlit("home_on_scratch");
    assert("vsc_id"@.len() == 6);
    assert("status"@.len() == 6);
    assert("isactive"@.len() == 8);
    assert("force_active"@.len() == 12);
    assert("expiry_date"@.len() == 11);
    assert("grace_until"@.len() == 11);
    assert("vsc_id_number"@.len() == 13);
    assert("home_directory"@.len() == 14);
    assert("data_directory"@.len() == 14);
    assert("scratch_directory"@.len() == 17);
    assert("login_shell"@.len() == 11);
    assert("broken"@.len() == 6);
    assert("email"@.len() == 5);
    assert("research_field"@.len() == 14);
    assert("create_timestamp"@.len() == 16);
    assert("person"@.len() == 6);
    assert("home_on_scratch"@.len() == 15);
    assert("vsc_id"@[0] == 'v');
    assert("status"@[0] == 's');
    assert("broken"@[0] == 'b');
    assert("person"@[0] == 'p');
    assert("expiry_date"@[0] == 'e');
    assert("grace_until"@[0] == 'g');
    assert("login_shell"@[0] == 'l');
    assert("home_directory"@[0] == 'h');
    assert("data_directory"@[0] == 'd');
    assert("research_field"@[0] == 'r');
    reveal_with_fuel(lookup, 20);
    let ms = json_of_account(a)->Obj_0;
    assert(lookup(ms, "vsc_id"@) == Some(JsonVal::Str(a.vsc_id)));
    assert(lookup(ms, "status"@) == Some(JsonVal::Str(spec_status_str(a.status))));
    lemma_status_round_trip(a.status);
    assert(lookup(ms, "isactive"@) == Some(JsonVal::Bool(a.isactive)));
    assert(lookup(ms, "force_active"@) == Some(JsonVal::Bool(a.force_active)));
    assert(lookup(ms, "expiry_date"@) == Some(json_of_opt_str(a.expiry_date)));
    assert(get_opt_str(ms, "expiry_date"@) == Some(a.expiry_date));
    assert(lookup(ms, "grace_until"@) == Some(json_of_opt_str(a.grace_until)));
    assert(get_opt_str(ms, "grace_until"@) == Some(a.grace_until));
    assert(lookup(ms, "vsc_id_number"@) == Some(JsonVal::UInt(a.vsc_id_number)));
    assert(lookup(ms, "home_directory"@) == Some(JsonVal::Str(a.home_directory)));
    assert(lookup(ms, "data_directory"@) == Some(JsonVal::Str(a.data_directory)));
    assert(lookup(ms, "scratch_directory"@) == Some(JsonVal::Str(a.scratch_directory)));
    assert(lookup(ms, "login_shell"@) == Some(JsonVal::Str(a.login_shell)));
    assert(lookup(ms, "broken"@) == Some(JsonVal::Bool(a.broken)));
    assert(lookup(ms, "email"@) == Some(JsonVal::Str(a.email)));
    assert(lookup(ms, "research_field"@) == Some(json_of_strings(a.research_field)));
    lemma_strings_round_trip(a.research_field);
    assert(lookup(ms, "create_timestamp"@) == Some(JsonVal::Str(a.create_timestamp)));
    assert(lookup(ms, "person"@) == Some(json_of_person(a.person)));
    lemma_person_round_trip(a.person);
    assert(lookup(ms, "home_on_scratch"@) == Some(JsonVal::Bool(a.home_on_scratch)));
}

/// Decoding an encoded virtual organisation yields it unchanged: the
/// last leg of the round-trip law.
pub proof fn lemma_vo_round_trip(v: VirtualOrganisationV)
    ensures
        spec_vo_of_json(json_of_vo(v)) == Some(v),
{
    broadcast use vstd::string::group_string_axioms;

    reveal_strlit("vsc_id");
    reveal_strlit("status");
    reveal_strlit("vsc_id_number");
    reveal_strlit("institute");
    reveal_strlit("fairshare");
    reveal_strlit("data_path");
    reveal_strlit("scratch_path");
    reveal_strlit("description");
    reveal_strlit("members");
    reveal_strlit("moderators");
    reveal_strlit("name");
    assert("vsc_id"@.len() == 6);
    assert("status"@.len() == 6);
    assert("vsc_id_number"@.len() == 13);
    assert("institute"@.len() == 9);
    assert("fairshare"@.len() == 9);
    assert("data_path"@.len() == 9);
    assert("scratch_path"@.len() == 12);
    assert("description"@.len() == 11);
    assert("members"@.len() == 7);
    assert("moderators"@.len() == 10);
    assert("name"@.len() == 4);
    assert("vsc_id"@[0] == 'v');
    assert("status"@[0] == 's');
    assert("institute"@[0] == 'i');
    assert("fairshare"@[0] == 'f');
    assert("data_path"@[0] == 'd');
    reveal_with_fuel(lookup, 12);
    let ms = json_of_vo(v)->Obj_0;
    assert(lookup(ms, "vsc_id"@) == Some(JsonVal::Str(v.vsc_id)));
    assert(lookup(ms, "status"@) == Some(JsonVal::Str(spec_status_str(v.status))));
    lemma_status_round_trip(v.status);
    assert(lookup(ms, "vsc_id_number"@) == Some(JsonVal::UInt(v.vsc_id_number)));
    assert(lookup(ms, "institute"@) == Some(
        JsonVal::Obj(seq![("name"@, JsonVal::Str(v.institute))]),
    ));
    assert(lookup(seq![("name"@, JsonVal::Str(v.institute))], "name"@) == Some(
        JsonVal::Str(v.institute),
    ));
    assert(lookup(ms, "fairshare"@) == Some(JsonVal::UInt(v.fairshare as u64)));
    assert(get_u32(ms, "fairshare"@) == Some(v.fairshare));
    assert(lookup(ms, "data_path"@) == Some(JsonVal::Str(v.data_path)));
    assert(lookup(ms, "scratch_path"@) == Some(JsonVal::Str(v.scratch_path)));
    assert(lookup(ms, "description"@) == Some(JsonVal::Str(v.description)));
    assert(lookup(ms, "members"@) == Some(json_of_strings(v.members)));
    lemma_strings_round_trip(v.members);
    assert(lookup(ms, "moderators"@) == Some(json_of_strings(v.moderators)));
    lemma_strings_round_trip(v.moderators);
}

/// Decoding an encoded account list yields the list unchanged, element
/// by element and in order: the round-trip law for the "get all
/// accounts" response shape.
pub proof fn lemma_accounts_round_trip(list: Seq<AccountV>)
    ensures
        spec_accounts_of_json(json_of_accounts(list)) == Some(list),
    decreases list.len(),
{
    if list.len() == 0 {
        assert(account_items(list) =~= Seq::<JsonVal>::empty());
        assert(Seq::<AccountV>::empty() =~= list);
    } else {
        assert(account_items(list)[0] == json_of_account(list[0]));
        assert(account_items(list).drop_first() =~= account_items(list.drop_first()));
        lemma_account_round_trip(list[0]);
        lemma_accounts_round_trip(list.drop_first());
        assert(seq![list[0]] + list.drop_first() =~= list);
    }
}

/// Decoding an encoded virtual-organisation list yields the list
/// unchanged: the round-trip law for the "get all virtual
/// organisations" response shape.
pub proof fn lemma_vos_round_trip(list: Seq<VirtualOrganisationV>)
    ensures
        spec_vos_of_json(json_of_vos(list)) == Some(list),
    decreases list.len(),
{
    if list.len() == 0 {
        assert(vo_items(list) =~= Seq::<JsonVal>::empty());
        assert(Seq::<VirtualOrganisationV>::empty() =~= list);
    } else {
        assert(vo_items(list)[0] == json_of_vo(list[0]));
        assert(vo_items(list).drop_first() =~= vo_items(list.drop_first()));
        lemma_vo_round_trip(list[0]);
        lemma_vos_round_trip(list.drop_first());
        assert(seq![list[0]] + list.drop_first() =~= list);
    }
}

/// The full round-trip law for an account, textual layer included:
/// the encoded account renders as a text that parses back to exactly
/// the encoded document, and that document decodes to the account
/// unchanged.
pub proof fn lemma_account_text_round_trip(a: AccountV)
    ensures
        crate::parse::sp_parse(crate::json::spec_render(json_of_account(a), Seq::empty()))
            == Some(json_of_account(a)),
        spec_account_of_json(json_of_account(a)) == Some(a),
{
    crate::parse::lemma_render_parse_round_trip(json_of_account(a));
    lemma_account_round_trip(a);
}

/// The full round-trip law for a person, textual layer included.
pub proof fn lemma_person_text_round_trip(p: PersonV)
    ensures
        crate::parse::sp_parse(crate::json::spec_render(json_of_person(p), Seq::empty()))
            == Some(json_of_person(p)),
        spec_person_of_json(json_of_person(p)) == Some(p),
{
    crate::parse::lemma_render_parse_round_trip(json_of_person(p));
    lemma_person_round_trip(p);
}

/// The full round-trip law for a virtual organisation, textual layer
/// included.
pub proof fn lemma_vo_text_round_trip(v: VirtualOrganisationV)
    ensures
        crate::parse::sp_parse(crate::json::spec_render(json_of_vo(v), Seq::empty())) == Some(
            json_of_vo(v),
        ),
        spec_vo_of_json(json_of_vo(v)) == Some(v),
{
    crate::parse::lemma_render_parse_round_trip(json_of_vo(v));
    lemma_vo_round_trip(v);
}

// ------------------------------------------------------------------
// Encoding, executable

fn push_member(ms: &mut Vec<(String, Json)>, key: &str, v: Json)
    ensures
        kviews(final(ms)@) == kviews(old(ms)@).push((key@, jview(v))),
{
    let ghost before = ms@;
    ms.push((String::from_str(key), v));
    proof {
        let m = ms@[ms@.len() - 1];
        lemma_kviews_push(before, m);
    }
}

/// Encode an optional string; `None` becomes `null`.
pub fn opt_str_to_json(o: &Option<String>) -> (r: Json)
    ensures
        jview(r) == json_of_opt_str(o.deep_view()),
{
    match o {
        Some(s) => Json::Str(s.clone()),
        None => Json::Null,
    }
}

/// Encode a string list as a JSON array.
pub fn strings_to_json(v: &Vec<String>) -> (r: Json)
    ensures
        jview(r) == json_of_strings(v.deep_view()),
{
    let mut items: Vec<Json> = Vec::new();
    let mut k: usize = 0;
    while k < v.len()
        invariant
            k <= v@.len(),
            jviews(items@) == Seq::new(k as nat, |i: int| JsonVal::Str(v@[i]@)),
        decreases v@.len() - k,
    {
        let ghost before = items@;
        items.push(Json::Str(v[k].clone()));
        proof {
            lemma_jviews_push(before, items@[items@.len() - 1]);
        }
        k = k + 1;
        proof {
            assert(jviews(items@) =~= Seq::new(k as nat, |i: int| JsonVal::Str(v@[i]@)));
        }
    }
    proof {
        assert(jviews(items@) =~= str_items(v.deep_view()));
    }
    Json::Arr(items)
}

/// Encode a person as the object its decoder reads.
pub fn person_to_json(p: &Person) -> (r: Json)
    ensures
        jview(r) == json_of_person(p@),
{
    let mut inst: Vec<(String, Json)> = Vec::new();
    push_member(&mut inst, "name", Json::Str(p.institute.name.clone()));
    proof {
        assert(kviews(inst@) =~= seq![("name"@, JsonVal::Str(p.institute.name@))]);
    }
    let mut ms: Vec<(String, Json)> = Vec::new();
    push_member(&mut ms, "gecos", Json::Str(p.gecos.clone()));
    push_member(&mut ms, "institute", Json::Obj(inst));
    push_member(&mut ms, "institute_login", Json::Str(p.institute_login.clone()));
    push_member(&mut ms, "realeppn", Json::Str(p.realeppn.clone()));
    proof {
        assert(kviews(ms@) =~= json_of_person(p@)->Obj_0);
    }
    Json::Obj(ms)
}

/// Encode an account as the object its decoder reads.
#[verifier::rlimit(60)]
pub fn account_to_json(a: &Account) -> (r: Json)
    ensures
        jview(r) == json_of_account(a@),
{
    let mut ms: Vec<(String, Json)> = Vec::new();
    push_member(&mut ms, "vsc_id", Json::Str(a.vsc_id.clone()));
    push_member(&mut ms, "status", Json::Str(status_str(a.status)));
    push_member(&mut ms, "isactive", Json::Bool(a.isactive));
    push_member(&mut ms, "force_active", Json::Bool(a.force_active));
    push_member(&mut ms, "expiry_date", opt_str_to_json(&a.expiry_date));
    push_member(&mut ms, "grace_until", opt_str_to_json(&a.grace_until));
    push_member(&mut ms, "vsc_id_number", Json::UInt(a.vsc_id_number));
    push_member(&mut ms, "home_directory", Json::Str(a.home_directory.clone()));
    push_member(&mut ms, "data_directory", Json::Str(a.data_directory.clone()));
    push_member(&mut ms, "scratch_directory", Json::Str(a.scratch_directory.clone()));
    push_member(&mut ms, "login_shell", Json::Str(a.login_shell.clone()));
    push_member(&mut ms, "broken", Json::Bool(a.broken));
    push_member(&mut ms, "email", Json::Str(a.email.clone()));
    push_member(&mut ms, "research_field", strings_to_json(&a.research_field));
    push_member(&mut ms, "create_timestamp", Json::Str(a.create_timestamp.clone()));
    push_member(&mut ms, "person", person_to_json(&a.person));
    push_member(&mut ms, "home_on_scratch", Json::Bool(a.home_on_scratch));
    proof {
        assert(kviews(ms@) =~= json_of_account(a@)->Obj_0);
    }
    Json::Obj(ms)
}

/// Encode a virtual organisation as the object its decoder reads.
pub fn vo_to_json(v: &VirtualOrganisation) -> (r: Json)
    ensures
        jview(r) == json_of_vo(v@),
{
    let mut inst: Vec<(String, Json)> = Vec::new();
    push_member(&mut inst, "name", Json::Str(v.institute.name.clone()));
    proof {
        assert(kviews(inst@) =~= seq![("name"@, JsonVal::Str(v.institute.name@))]);
    }
    let mut ms: Vec<(String, Json)> = Vec::new();
    push_member(&mut ms, "vsc_id", Json::Str(v.vsc_id.clone()));
    push_member(&mut ms, "status", Json::Str(status_str(v.status)));
    push_member(&mut ms, "vsc_id_number", Json::UInt(v.vsc_id_number));
    push_member(&mut ms, "institute", Json::Obj(inst));
    push_member(&mut ms, "fairshare", Json::UInt(v.fairshare as u64));
    push_member(&mut ms, "data_path", Json::Str(v.data_path.clone()));
    push_member(&mut ms, "scratch_path", Json::Str(v.scratch_path.clone()));
    push_member(&mut ms, "description", Json::Str(v.description.clone()));
    push_member(&mut ms, "members", strings_to_json(&v.members));
    push_member(&mut ms, "moderators", strings_to_json(&v.moderators));
    proof {
        assert(kviews(ms@) =~= json_of_vo(v@)->Obj_0);
    }
    Json::Obj(ms)
}

/// Encode an account list as a JSON array.
pub fn accounts_to_json(xs: &Accounts) -> (r: Json)
    ensures
        jview(r) == json_of_accounts(xs@),
{
    let mut items: Vec<Json> = Vec::new();
    let mut k: usize = 0;
    while k < xs.0.len()
        invariant
            k <= xs.0@.len(),
            jviews(items@) == Seq::new(k as nat, |i: int| json_of_account(xs.0@[i]@)),
        decreases xs.0@.len() - k,
    {
        let ghost before = items@;
        let item = account_to_json(&xs.0[k]);
        items.push(item);
        proof {
            lemma_jviews_push(before, items@[items@.len() - 1]);
        }
        k = k + 1;
        proof {
            assert(jviews(items@) =~= Seq::new(k as nat, |i: int| json_of_account(xs.0@[i]@)));
        }
    }
    proof {
        assert(jviews(items@) =~= account_items(xs@));
    }
    Json::Arr(items)
}

/// Encode a virtual-organisation list as a JSON array.
pub fn vos_to_json(xs: &VirtualOrganisations) -> (r: Json)
    ensures
        jview(r) == json_of_vos(xs@),
{
    let mut items: Vec<Json> = Vec::new();
    let mut k: usize = 0;
    while k < xs.0.len()
        invariant
            k <= xs.0@.len(),
            jviews(items@) == Seq::new(k as nat, |i: int| json_of_vo(xs.0@[i]@)),
        decreases xs.0@.len() - k,
    {
        let ghost before = items@;
        let item = vo_to_json(&xs.0[k]);
        items.push(item);
        proof {
            lemma_jviews_push(before, items@[items@.len() - 1]);
        }
        k = k + 1;
        proof {
            assert(jviews(items@) =~= Seq::new(k as nat, |i: int| json_of_vo(xs.0@[i]@)));
        }
    }
    proof {
        assert(jviews(items@) =~= vo_items(xs@));
    }
    Json::Arr(items)
}

// ------------------------------------------------------------------
// Decoding, executable

fn lookup_member<'a>(ms: &'a Vec<(String, Json)>, key: &String) -> (r: Option<&'a Json>)
    ensures
        match lookup(kviews(ms@), key@) {
            Some(v) => r matches Some(j) && jview(*j) == v,
            None => r is None,
        },
{
    proof {
        lemma_kviews_index(ms@);
        assert(kviews(ms@).skip(0) =~= kviews(ms@));
    }
    let mut k: usize = 0;
    while k < ms.len()
        invariant
            k <= ms@.len(),
            kviews(ms@).len() == ms@.len(),
            forall|i: int| 0 <= i < ms@.len() ==> kviews(ms@)[i] == (ms@[i].0@, jview(ms@[i].1)),
            lookup(kviews(ms@), key@) == lookup(kviews(ms@).skip(k as int), key@),
        decreases ms@.len() - k,
    {
        if ms[k].0.eq(key) {
            proof {
                assert(kviews(ms@).skip(k as int)[0] == kviews(ms@)[k as int]);
            }
            return Some(&ms[k].1);
        }
        proof {
            assert(kviews(ms@).skip(k as int)[0] == kviews(ms@)[k as int]);
            assert(kviews(ms@).skip(k as int).drop_first() =~= kviews(ms@).skip(k as int + 1));
        }
        k = k + 1;
    }
    proof {
        assert(kviews(ms@).skip(ms@.len() as int) =~= Seq::<(Seq<char>, JsonVal)>::empty());
    }
    None
}

fn member_str(ms: &Vec<(String, Json)>, key: &str) -> (r: Option<String>)
    ensures
        match get_str(kviews(ms@), key@) {
            Some(cs) => r matches Some(s) && s@ == cs,
            None => r is None,
        },
{
    let ks = String::from_str(key);
    match lookup_member(ms, &ks) {
        Some(Json::Str(s)) => Some(s.clone()),
        _ => None,
    }
}

fn member_bool(ms: &Vec<(String, Json)>, key: &str) -> (r: Option<bool>)
    ensures
        r == get_bool(kviews(ms@), key@),
{
    let ks = String::from_str(key);
    match lookup_member(ms, &ks) {
        Some(Json::Bool(b)) => Some(*b),
        _ => None,
    }
}

fn member_u64(ms: &Vec<(String, Json)>, key: &str) -> (r: Option<u64>)
    ensures
        r == get_u64(kviews(ms@), key@),
{
    let ks = String::from_str(key);
    match lookup_member(ms, &ks) {
        Some(Json::UInt(n)) => Some(*n),
        _ => None,
    }
}

fn member_u32(ms: &Vec<(String, Json)>, key: &str) -> (r: Option<u32>)
    ensures
        r == get_u32(kviews(ms@), key@),
{
    let ks = String::from_str(key);
    match lookup_member(ms, &ks) {
        Some(Json::UInt(n)) => {
            if *n <= 0xFFFF_FFFF {
                Some(*n as u32)
            } else {
                None
            }
        },
        _ => None,
    }
}

fn member_opt_str(ms: &Vec<(String, Json)>, key: &str) -> (r: Option<Option<String>>)
    ensures
        match get_opt_str(kviews(ms@), key@) {
            Some(o) => r matches Some(x) && x.deep_view() == o,
            None => r is None,
        },
{
    let ks = String::from_str(key);
    match lookup_member(ms, &ks) {
        None => Some(None),
        Some(Json::Null) => Some(None),
        Some(Json::Str(s)) => Some(Some(s.clone())),
        _ => None,
    }
}

fn member_strs(ms: &Vec<(String, Json)>, key: &str) -> (r: Option<Vec<String>>)
    ensures
        match get_strs(kviews(ms@), key@) {
            Some(ss) => r matches Some(v) && v.deep_view() == ss,
            None => r is None,
        },
{
    let ks = String::from_str(key);
    match lookup_member(ms, &ks) {
        Some(Json::Arr(es)) => {
            proof {
                lemma_jviews_index(es@);
                assert(jviews(es@).skip(0) =~= jviews(es@));
            }
            let mut out: Vec<String> = Vec::new();
            let mut k: usize = 0;
            while k < es.len()
                invariant
                    k <= es@.len(),
                    jviews(es@).len() == es@.len(),
                    forall|i: int| 0 <= i < es@.len() ==> jviews(es@)[i] == jview(es@[i]),
                    get_strs(kviews(ms@), key@) == strings_of_list(jviews(es@)),
                    strings_of_list(jviews(es@)) == (match strings_of_list(
                        jviews(es@).skip(k as int),
                    ) {
                        Some(t) => Some(out.deep_view() + t),
                        None => None::<Seq<Seq<char>>>,
                    }),
                decreases es@.len() - k,
            {
                proof {
                    assert(jviews(es@).skip(k as int)[0] == jviews(es@)[k as int]);
                    assert(jviews(es@).skip(k as int).drop_first() =~= jviews(es@).skip(
                        k as int + 1,
                    ));
                }
                match &es[k] {
                    Json::Str(s) => {
                        let ghost before = out.deep_view();
                        out.push(s.clone());
                        k = k + 1;
                        proof {
                            assert(out.deep_view() =~= before.push(s@));
                            match strings_of_list(jviews(es@).skip(k as int)) {
                                Some(t) => {
                                    assert(before + (seq![s@] + t) =~= out.deep_view() + t);
                                },
                                None => {},
                            }
                        }
                    },
                    _ => {
                        return None;
                    },
                }
            }
            proof {
                assert(jviews(es@).skip(es@.len() as int) =~= Seq::<JsonVal>::empty());
                assert(out.deep_view() + Seq::<Seq<char>>::empty() =~= out.deep_view());
            }
            Some(out)
        },
        _ => None,
    }
}

fn member_status(ms: &Vec<(String, Json)>, key: &str) -> (r: Option<Status>)
    ensures
        r == get_status(kviews(ms@), key@),
{
    match member_str(ms, key) {
        Some(s) => status_of_string(&s),
        None => None,
    }
}

/// Decode a person from its JSON object; exactly
/// [`spec_person_of_json`], with a decode error naming the offending
/// member on failure.
pub fn person_of_json(j: &Json) -> (r: Result<Person, ClientError>)
    ensures
        match spec_person_of_json(jview(*j)) {
            Some(pv) => r matches Ok(p) && p@ == pv,
            None => r matches Err(e) && e@ is DecodeError,
        },
{
    let ms = match j {
        Json::Obj(ms) => ms,
        _ => {
            return Err(ClientError::DecodeError { field: String::from_str("person") });
        },
    };
    let gecos = match member_str(ms, "gecos") {
        Some(s) => s,
        None => {
            return Err(ClientError::DecodeError { field: String::from_str("gecos") });
        },
    };
    let institute = match lookup_member(ms, &String::from_str("institute")) {
        Some(Json::Obj(ims)) => match member_str(ims, "name") {
            Some(n) => n,
            None => {
                return Err(ClientError::DecodeError { field: String::from_str("name") });
            },
        },
        _ => {
            return Err(ClientError::DecodeError { field: String::from_str("institute") });
        },
    };
    let institute_login = match member_str(ms, "institute_login") {
        Some(s) => s,
        None => {
            return Err(ClientError::DecodeError { field: String::from_str("institute_login") });
        },
    };
    let realeppn = match member_str(ms, "realeppn") {
        Some(s) => s,
        None => {
            return Err(ClientError::DecodeError { field: String::from_str("realeppn") });
        },
    };
    Ok(
        Person {
            gecos,
            institute: Institute { name: institute },
            institute_login,
            realeppn,
        },
    )
}

/// Decode an account from its JSON object; exactly
/// [`spec_account_of_json`], with a decode error naming the offending
/// member on failure.
#[verifier::rlimit(60)]
pub fn account_of_json(j: &Json) -> (r: Result<Account, ClientError>)
    ensures
        match spec_account_of_json(jview(*j)) {
            Some(av) => r matches Ok(a) && a@ == av,
            None => r matches Err(e) && e@ is DecodeError,
        },
{
    let ms = match j {
        Json::Obj(ms) => ms,
        _ => {
            return Err(ClientError::DecodeError { field: String::from_str("account") });
        },
    };
    let vsc_id = match member_str(ms, "vsc_id") {
        Some(s) => s,
        None => {
            return Err(ClientError::DecodeError { field: String::from_str("vsc_id") });
        },
    };
    let status = match member_status(ms, "status") {
        Some(s) => s,
        None => {
            return Err(ClientError::DecodeError { field: String::from_str("status") });
        },
    };
    let isactive = match member_bool(ms, "isactive") {
        Some(b) => b,
        None => {
            return Err(ClientError::DecodeError { field: String::from_str("isactive") });
        },
    };
    let force_active = match member_bool(ms, "force_active") {
        Some(b) => b,
        None => {
            return Err(ClientError::DecodeError { field: String::from_str("force_active") });
        },
    };
    let expiry_date = match member_opt_str(ms, "expiry_date") {
        Some(o) => o,
        None => {
            return Err(ClientError::DecodeError { field: String::from_str("expiry_date") });
        },
    };
    let grace_until = match member_opt_str(ms, "grace_until") {
        Some(o) => o,
        None => {
            return Err(ClientError::DecodeError { field: String::from_str("grace_until") });
        },
    };
    let vsc_id_number = match member_u64(ms, "vsc_id_number") {
        Some(n) => n,
        None => {
            return Err(ClientError::DecodeError { field: String::from_str("vsc_id_number") });
        },
    };
    let home_directory = match member_str(ms, "home_directory") {
        Some(s) => s,
        None => {
            return Err(ClientError::DecodeError { field: String::from_str("home_directory") });
        },
    };
    let data_directory = match member_str(ms, "data_directory") {
        Some(s) => s,
        None => {
            return Err(ClientError::DecodeError { field: String::from_str("data_directory") });
        },
    };
    let scratch_directory = match member_str(ms, "scratch_directory") {
        Some(s) => s,
        None => {
            return Err(
                ClientError::DecodeError { field: String::from_str("scratch_directory") },
            );
        },
    };
    let login_shell = match member_str(ms, "login_shell") {
        Some(s) => s,
        None => {
            return Err(ClientError::DecodeError { field: String::from_str("login_shell") });
        },
    };
    let broken = match member_bool(ms, "broken") {
        Some(b) => b,
        None => {
            return Err(ClientError::DecodeError { field: String::from_str("broken") });
        },
    };
    let email = match member_str(ms, "email") {
        Some(s) => s,
        None => {
            return Err(ClientError::DecodeError { field: String::from_str("email") });
        },
    };
    let research_field = match member_strs(ms, "research_field") {
        Some(v) => v,
        None => {
            return Err(ClientError::DecodeError { field: String::from_str("research_field") });
        },
    };
    let create_timestamp = match member_str(ms, "create_timestamp") {
        Some(s) => s,
        None => {
            return Err(
                ClientError::DecodeError { field: String::from_str("create_timestamp") },
            );
        },
    };
    let person = match lookup_member(ms, &String::from_str("person")) {
        Some(pj) => match person_of_json(pj) {
            Ok(p) => p,
            Err(e) => {
                return Err(e);
            },
        },
        None => {
            return Err(ClientError::DecodeError { field: String::from_str("person") });
        },
    };
    let home_on_scratch = match member_bool(ms, "home_on_scratch") {
        Some(b) => b,
        None => {
            return Err(ClientError::DecodeError { field: String::from_str("home_on_scratch") });
        },
    };
    Ok(
        Account {
            vsc_id,
            status,
            isactive,
            force_active,
            expiry_date,
            grace_until,
            vsc_id_number,
            home_directory,
            data_directory,
            scratch_directory,
            login_shell,
            broken,
            email,
            research_field,
            create_timestamp,
            person,
            home_on_scratch,
        },
    )
}

/// Decode a virtual organisation from its JSON object; exactly
/// [`spec_vo_of_json`], with a decode error naming the offending
/// member on failure.
#[verifier::rlimit(60)]
pub fn vo_of_json(j: &Json) -> (r: Result<VirtualOrganisation, ClientError>)
    ensures
        match spec_vo_of_json(jview(*j)) {
            Some(vv) => r matches Ok(v) && v@ == vv,
            None => r matches Err(e) && e@ is DecodeError,
        },
{
    let ms = match j {
        Json::Obj(ms) => ms,
        _ => {
            return Err(ClientError::DecodeError { field: String::from_str("vo") });
        },
    };
    let vsc_id = match member_str(ms, "vsc_id") {
        Some(s) => s,
        None => {
            return Err(ClientError::DecodeError { field: String::from_str("vsc_id") });
        },
    };
    let status = match member_status(ms, "status") {
        Some(s) => s,
        None => {
            return Err(ClientError::DecodeError { field: String::from_str("status") });
        },
    };
    let vsc_id_number = match member_u64(ms, "vsc_id_number") {
        Some(n) => n,
        None => {
            return Err(ClientError::DecodeError { field: String::from_str("vsc_id_number") });
        },
    };
    let institute = match lookup_member(ms, &String::from_str("institute")) {
        Some(Json::Obj(ims)) => match member_str(ims, "name") {
            Some(n) => n,
            None => {
                return Err(ClientError::DecodeError { field: String::from_str("name") });
            },
        },
        _ => {
            return Err(ClientError::DecodeError { field: String::from_str("institute") });
        },
    };
    let fairshare = match member_u32(ms, "fairshare") {
        Some(n) => n,
        None => {
            return Err(ClientError::DecodeError { field: String::from_str("fairshare") });
        },
    };
    let data_path = match member_str(ms, "data_path") {
        Some(s) => s,
        None => {
            return Err(ClientError::DecodeError { field: String::from_str("data_path") });
        },
    };
    let scratch_path = match member_str(ms, "scratch_path") {
        Some(s) => s,
        None => {
            return Err(ClientError::DecodeError { field: String::from_str("scratch_path") });
        },
    };
    let description = match member_str(ms, "description") {
        Some(s) => s,
        None => {
            return Err(ClientError::DecodeError { field: String::from_str("description") });
        },
    };
    let members = match member_strs(ms, "members") {
        Some(v) => v,
        None => {
            return Err(ClientError::DecodeError { field: String::from_str("members") });
        },
    };
    let moderators = match member_strs(ms, "moderators") {
        Some(v) => v,
        None => {
            return Err(ClientError::DecodeError { field: String::from_str("moderators") });
        },
    };
    Ok(
        VirtualOrganisation {
            vsc_id,
            status,
            vsc_id_number,
            institute: Institute { name: institute },
            fairshare,
            data_path,
            scratch_path,
            description,
            members,
            moderators,
        },
    )
}

/// Decode an account list from a JSON array; exactly
/// [`spec_accounts_of_json`].
pub fn accounts_of_json(j: &Json) -> (r: Result<Accounts, ClientError>)
    ensures
        match spec_accounts_of_json(jview(*j)) {
            Some(l) => r matches Ok(x) && x@ == l,
            None => r matches Err(e) && e@ is DecodeError,
        },
{
    let es = match j {
        Json::Arr(es) => es,
        _ => {
            return Err(ClientError::DecodeError { field: String::from_str("accounts") });
        },
    };
    proof {
        lemma_jviews_index(es@);
        assert(jviews(es@).skip(0) =~= jviews(es@));
    }
    let mut out: Vec<Account> = Vec::new();
    let mut k: usize = 0;
    while k < es.len()
        invariant
            k <= es@.len(),
            jviews(es@).len() == es@.len(),
            forall|i: int| 0 <= i < es@.len() ==> jviews(es@)[i] == jview(es@[i]),
            jview(*j) == JsonVal::Arr(jviews(es@)),
            accounts_of_list(jviews(es@)) == (match accounts_of_list(
                jviews(es@).skip(k as int),
            ) {
                Some(t) => Some(out.deep_view() + t),
                None => None::<Seq<AccountV>>,
            }),
        decreases es@.len() - k,
    {
        proof {
            assert(jviews(es@).skip(k as int)[0] == jviews(es@)[k as int]);
            assert(jviews(es@).skip(k as int).drop_first() =~= jviews(es@).skip(k as int + 1));
        }
        match account_of_json(&es[k]) {
            Ok(a) => {
                let ghost before = out.deep_view();
                let ghost av = a@;
                out.push(a);
                k = k + 1;
                proof {
                    assert(out.deep_view() =~= before.push(av));
                    match accounts_of_list(jviews(es@).skip(k as int)) {
                        Some(t) => {
                            assert(before + (seq![av] + t) =~= out.deep_view() + t);
                        },
                        None => {},
                    }
                }
            },
            Err(e) => {
                return Err(e);
            },
        }
    }
    proof {
        assert(jviews(es@).skip(es@.len() as int) =~= Seq::<JsonVal>::empty());
        assert(out.deep_view() + Seq::<AccountV>::empty() =~= out.deep_view());
    }
    Ok(Accounts(out))
}

/// Decode a virtual-organisation list from a JSON array; exactly
/// [`spec_vos_of_json`].
pub fn vos_of_json(j: &Json) -> (r: Result<VirtualOrganisations, ClientError>)
    ensures
        match spec_vos_of_json(jview(*j)) {
            Some(l) => r matches Ok(x) && x@ == l,
            None => r matches Err(e) && e@ is DecodeError,
        },
{
    let es = match j {
        Json::Arr(es) => es,
        _ => {
            return Err(ClientError::DecodeError { field: String::from_str("vos") });
        },
    };
    proof {
        lemma_jviews_index(es@);
        assert(jviews(es@).skip(0) =~= jviews(es@));
    }
    let mut out: Vec<VirtualOrganisation> = Vec::new();
    let mut k: usize = 0;
    while k < es.len()
        invariant
            k <= es@.len(),
            jviews(es@).len() == es@.len(),
            forall|i: int| 0 <= i < es@.len() ==> jviews(es@)[i] == jview(es@[i]),
            jview(*j) == JsonVal::Arr(jviews(es@)),
            vos_of_list(jviews(es@)) == (match vos_of_list(jviews(es@).skip(k as int)) {
                Some(t) => Some(out.deep_view() + t),
                None => None::<Seq<VirtualOrganisationV>>,
            }),
        decreases es@.len() - k,
    {
        proof {
            assert(jviews(es@).skip(k as int)[0] == jviews(es@)[k as int]);
            assert(jviews(es@).skip(k as int).drop_first() =~= jviews(es@).skip(k as int + 1));
        }
        match vo_of_json(&es[k]) {
            Ok(a) => {
                let ghost before = out.deep_view();
                let ghost av = a@;
                out.push(a);
                k = k + 1;
                proof {
                    assert(out.deep_view() =~= before.push(av));
                    match vos_of_list(jviews(es@).skip(k as int)) {
                        Some(t) => {
                            assert(before + (seq![av] + t) =~= out.deep_view() + t);
                        },
                        None => {},
                    }
                }
            },
            Err(e) => {
                return Err(e);
            },
        }
    }
    proof {
        assert(jviews(es@).skip(es@.len() as int) =~= Seq::<JsonVal>::empty());
        assert(out.deep_view() + Seq::<VirtualOrganisationV>::empty() =~= out.deep_view());
    }
    Ok(VirtualOrganisations(out))
}

} // verus!

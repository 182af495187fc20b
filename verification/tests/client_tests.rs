use raccountpage::codec::{account_of_json, account_to_json, person_of_json, person_to_json};
use raccountpage::codec::{accounts_of_json, vo_of_json, vo_to_json};
use raccountpage::dispatch::{account_query_path, process_account_response, process_vo_response};
use raccountpage::dispatch::vo_query_path;
use raccountpage::errors::ClientError;
use raccountpage::filter::{AccountFilter, AccountIntent, VoFilter, VoIntent};
use raccountpage::filter::{resolve_account, resolve_vo};
use raccountpage::json::render_pretty;
use raccountpage::model::{Account, Institute, Person, Status, VirtualOrganisation};
use raccountpage::parse::parse_json;
use raccountpage::paths::{account_path, vo_path};

fn sample_person() -> Person {
    Person {
        gecos: String::from("Jane Doe"),
        institute: Institute { name: String::from("kul") },
        institute_login: String::from("jdoe"),
        realeppn: String::from("jdoe@example.org"),
    }
}

fn sample_account() -> Account {
    Account {
        vsc_id: String::from("vsc40075"),
        status: Status::Active,
        isactive: true,
        force_active: false,
        expiry_date: None,
        grace_until: Some(String::from("2031-01-01")),
        vsc_id_number: 2540075,
        home_directory: String::from("/user/home/gent/vsc400/vsc40075"),
        data_directory: String::from("/user/data/gent/vsc400/vsc40075"),
        scratch_directory: String::from("/user/scratch/gent/vsc400/vsc40075"),
        login_shell: String::from("/bin/bash"),
        broken: false,
        email: String::from("jane.doe@example.org"),
        research_field: vec![String::from("Bollandistiek"), String::from("unknown")],
        create_timestamp: String::from("2014-04-23T09:11:22.460855+02:00"),
        person: sample_person(),
        home_on_scratch: false,
    }
}

fn sample_vo() -> VirtualOrganisation {
    VirtualOrganisation {
        vsc_id: String::from("gvo00003"),
        status: Status::Active,
        vsc_id_number: 2640010,
        institute: Institute { name: String::from("gent") },
        fairshare: 100,
        data_path: String::from("/user/data/gent/gvo000/gvo00003"),
        scratch_path: String::from("/user/scratch/gent/gvo000/gvo00003"),
        description: String::from("chemistry group"),
        members: vec![String::from("vsc40001"), String::from("vsc40075")],
        moderators: vec![String::from("vsc40001")],
    }
}

fn account_json_text() -> String {
    render_pretty(&account_to_json(&sample_account()))
}

// Filter resolution: priority order, totality

#[test]
fn resolver_all_wins_over_everything() {
    let f = AccountFilter {
        all: true,
        institute: Some(String::from("kul")),
        institute_login: Some(String::from("jdoe")),
        modified_since: Some(String::from("201902011200")),
        vsc_id: Some(String::from("vsc40075")),
    };
    assert_eq!(resolve_account(&f), Ok(AccountIntent::FetchAllAccounts));
}

#[test]
fn resolver_institute_login_beats_modified_and_vscid() {
    let f = AccountFilter {
        all: false,
        institute: Some(String::from("kul")),
        institute_login: Some(String::from("jdoe")),
        modified_since: Some(String::from("201902011200")),
        vsc_id: Some(String::from("vsc40075")),
    };
    assert_eq!(
        resolve_account(&f),
        Ok(AccountIntent::FetchAccountByInstituteLogin {
            institute: String::from("kul"),
            login: String::from("jdoe"),
        })
    );
}

#[test]
fn resolver_institute_without_login_falls_through() {
    let f = AccountFilter {
        all: false,
        institute: Some(String::from("kul")),
        institute_login: None,
        modified_since: Some(String::from("201902011200")),
        vsc_id: Some(String::from("vsc40075")),
    };
    assert_eq!(
        resolve_account(&f),
        Ok(AccountIntent::FetchAccountsModifiedSince {
            timestamp: String::from("201902011200"),
        })
    );
}

#[test]
fn resolver_vscid_is_last_resort() {
    let f = AccountFilter {
        all: false,
        institute: None,
        institute_login: None,
        modified_since: None,
        vsc_id: Some(String::from("vsc40075")),
    };
    assert_eq!(
        resolve_account(&f),
        Ok(AccountIntent::FetchAccountByVscId { vsc_id: String::from("vsc40075") })
    );
}

#[test]
fn resolver_no_filters_is_usage_error() {
    let f = AccountFilter::default();
    assert_eq!(resolve_account(&f), Err(ClientError::MissingRequiredArgument));
}

#[test]
fn vo_resolver_all_wins() {
    let f = VoFilter { all: true, vsc_id: Some(String::from("gvo00003")) };
    assert_eq!(resolve_vo(&f), Ok(VoIntent::FetchAllVos));
}

#[test]
fn vo_resolver_vscid() {
    let f = VoFilter { all: false, vsc_id: Some(String::from("gvo00003")) };
    assert_eq!(
        resolve_vo(&f),
        Ok(VoIntent::FetchVoByVscId { vsc_id: String::from("gvo00003") })
    );
}

#[test]
fn vo_resolver_no_filters_is_usage_error() {
    let f = VoFilter { all: false, vsc_id: None };
    assert_eq!(resolve_vo(&f), Err(ClientError::MissingRequiredArgument));
}

// Path builder: the golden table

#[test]
fn path_all_accounts() {
    assert_eq!(account_path(&AccountIntent::FetchAllAccounts), "api/account/");
}

#[test]
fn path_accounts_modified_since() {
    let i = AccountIntent::FetchAccountsModifiedSince { timestamp: String::from("201902011200") };
    assert_eq!(account_path(&i), "api/account/modified/201902011200");
}

#[test]
fn path_account_by_vscid() {
    let i = AccountIntent::FetchAccountByVscId { vsc_id: String::from("vsc40075") };
    assert_eq!(account_path(&i), "api/account/vsc40075/");
}

#[test]
fn path_account_by_institute_login() {
    let i = AccountIntent::FetchAccountByInstituteLogin {
        institute: String::from("kul"),
        login: String::from("jdoe"),
    };
    assert_eq!(account_path(&i), "api/account/institute/kul/id/jdoe");
}

#[test]
fn path_all_vos() {
    assert_eq!(vo_path(&VoIntent::FetchAllVos), "api/vo/");
}

#[test]
fn path_vo_by_vscid() {
    let i = VoIntent::FetchVoByVscId { vsc_id: String::from("gvo00003") };
    assert_eq!(vo_path(&i), "api/vo/gvo00003");
}

// Round trips: value level and text level

#[test]
fn account_round_trip_value() {
    let a = sample_account();
    assert_eq!(account_of_json(&account_to_json(&a)), Ok(a));
}

#[test]
fn person_round_trip_value() {
    let p = sample_person();
    assert_eq!(person_of_json(&person_to_json(&p)), Ok(p));
}

#[test]
fn vo_round_trip_value() {
    let v = sample_vo();
    assert_eq!(vo_of_json(&vo_to_json(&v)), Ok(v));
}

#[test]
fn account_round_trip_text() {
    let a = sample_account();
    let text = render_pretty(&account_to_json(&a));
    let doc = parse_json(&text).expect("rendered text parses");
    assert_eq!(account_of_json(&doc), Ok(a));
}

#[test]
fn vo_round_trip_text() {
    let v = sample_vo();
    let text = render_pretty(&vo_to_json(&v));
    let doc = parse_json(&text).expect("rendered text parses");
    assert_eq!(vo_of_json(&doc), Ok(v));
}

#[test]
fn string_escapes_round_trip_text() {
    let mut a = sample_account();
    a.email = String::from("odd \"name\" with \\ and \n tab\t and \u{1} control");
    let text = render_pretty(&account_to_json(&a));
    let doc = parse_json(&text).expect("escaped text parses");
    assert_eq!(account_of_json(&doc), Ok(a));
}

// Scenarios

#[test]
fn scenario_all_accounts() {
    let f = AccountFilter { all: true, ..AccountFilter::default() };
    assert_eq!(account_query_path(&f), Ok(String::from("api/account/")));
    let one = account_json_text();
    let body = format!("[{}, {}]", one, one);
    let doc = parse_json(&body).expect("array parses");
    let accounts = accounts_of_json(&doc).expect("array decodes");
    assert_eq!(accounts.0.len(), 2);
    assert_eq!(accounts.0[0], sample_account());
    let out = process_account_response(&AccountIntent::FetchAllAccounts, 200, &body)
        .expect("list response decodes");
    assert!(out.starts_with('['));
}

#[test]
fn scenario_account_by_vscid() {
    let f = AccountFilter { vsc_id: Some(String::from("vsc40075")), ..AccountFilter::default() };
    assert_eq!(account_query_path(&f), Ok(String::from("api/account/vsc40075/")));
    let body = account_json_text();
    let intent = AccountIntent::FetchAccountByVscId { vsc_id: String::from("vsc40075") };
    let out = process_account_response(&intent, 200, &body).expect("record decodes");
    let doc = parse_json(&out).expect("output parses");
    let account = account_of_json(&doc).expect("output decodes");
    assert_eq!(account.status, Status::Active);
    assert_eq!(account.vsc_id, "vsc40075");
}

#[test]
fn scenario_institute_login() {
    let f = AccountFilter {
        institute: Some(String::from("kul")),
        institute_login: Some(String::from("jdoe")),
        ..AccountFilter::default()
    };
    assert_eq!(
        account_query_path(&f),
        Ok(String::from("api/account/institute/kul/id/jdoe"))
    );
}

#[test]
fn scenario_no_filters_no_request() {
    let f = AccountFilter::default();
    assert_eq!(account_query_path(&f), Err(ClientError::MissingRequiredArgument));
    assert_eq!(vo_query_path(&VoFilter { all: false, vsc_id: None }),
        Err(ClientError::MissingRequiredArgument));
}

#[test]
fn scenario_transport_404() {
    let intent = AccountIntent::FetchAllAccounts;
    let r = process_account_response(&intent, 404, "{not even json");
    assert_eq!(r, Err(ClientError::RequestError { status: 404 }));
    let vr = process_vo_response(&VoIntent::FetchAllVos, 404, "{not even json");
    assert_eq!(vr, Err(ClientError::RequestError { status: 404 }));
}

#[test]
fn vo_response_decodes() {
    let text = render_pretty(&vo_to_json(&sample_vo()));
    let body = format!(" [ {} ] ", text);
    let out = process_vo_response(&VoIntent::FetchAllVos, 200, &body).expect("vo list decodes");
    assert!(out.starts_with('['));
    let single = process_vo_response(
        &VoIntent::FetchVoByVscId { vsc_id: String::from("gvo00003") },
        200,
        &text,
    )
    .expect("vo record decodes");
    assert_eq!(single, text);
}

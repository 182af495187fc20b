use raccountpage::codec::{account_of_json, account_to_json, status_of_string, status_str};
use raccountpage::codec::vo_of_json;
use raccountpage::errors::ClientError;
use raccountpage::json::{render_pretty, Json};
use raccountpage::model::Status;
use raccountpage::parse::parse_json;

// Parser behaviour

#[test]
fn parse_accepts_whitespace_and_shapes() {
    let doc = parse_json(" { \"a\" : [ 1 , true , null , \"x\" ] , \"b\" : { } } ")
        .expect("document parses");
    match doc {
        Json::Obj(ms) => {
            assert_eq!(ms.len(), 2);
            assert_eq!(ms[0].0, "a");
        },
        _ => panic!("expected an object"),
    }
}

#[test]
fn parse_number_bounds() {
    assert_eq!(parse_json("18446744073709551615"), Ok(Json::UInt(u64::MAX)));
    assert!(parse_json("18446744073709551616").is_err());
    assert!(parse_json("-1").is_err());
    assert!(parse_json("1.5").is_err());
}

#[test]
fn parse_rejects_malformed_text() {
    assert!(parse_json("").is_err());
    assert!(parse_json("{").is_err());
    assert!(parse_json("[1,]").is_err());
    assert!(parse_json("{\"a\" 1}").is_err());
    assert!(parse_json("nul").is_err());
    assert!(parse_json("1 2").is_err());
    assert!(parse_json("\"unterminated").is_err());
}

#[test]
fn parse_string_escapes() {
    let doc = parse_json("\"a\\\"b\\\\c\\n\\t\\u0041\\u00e9\"").expect("escapes parse");
    assert_eq!(doc, Json::Str(String::from("a\"b\\c\n\tA\u{e9}")));
    assert!(parse_json("\"\\ud800\"").is_err());
    assert!(parse_json("\"\\q\"").is_err());
}

#[test]
fn render_golden() {
    let doc = Json::Obj(vec![
        (String::from("a"), Json::UInt(1)),
        (String::from("b"), Json::Arr(vec![Json::UInt(1), Json::UInt(2)])),
        (String::from("c"), Json::Arr(vec![])),
        (String::from("d"), Json::Obj(vec![])),
        (String::from("e"), Json::Str(String::from("x\"y"))),
    ]);
    let expected = "{\n  \"a\": 1,\n  \"b\": [\n    1,\n    2\n  ],\n  \"c\": [],\n  \"d\": {},\n  \"e\": \"x\\\"y\"\n}";
    assert_eq!(render_pretty(&doc), expected);
}

// Status names

#[test]
fn status_names_round_trip() {
    let all = [
        (Status::Active, "active"),
        (Status::Inactive, "inactive"),
        (Status::Modified, "modified"),
        (Status::New, "new"),
        (Status::ForceInactive, "forceinactive"),
        (Status::ForceActive, "forceactive"),
    ];
    for (st, name) in all {
        assert_eq!(status_str(st), name);
        assert_eq!(status_of_string(&String::from(name)), Some(st));
    }
    assert_eq!(status_of_string(&String::from("zombie")), None);
}

// Decoder behaviour on upstream shapes

fn full_account_members() -> Vec<(String, Json)> {
    let person = Json::Obj(vec![
        (String::from("gecos"), Json::Str(String::from("Jane Doe"))),
        (
            String::from("institute"),
            Json::Obj(vec![(String::from("name"), Json::Str(String::from("kul")))]),
        ),
        (String::from("institute_login"), Json::Str(String::from("jdoe"))),
        (String::from("realeppn"), Json::Str(String::from("jdoe@example.org"))),
    ]);
    vec![
        (String::from("vsc_id"), Json::Str(String::from("vsc40075"))),
        (String::from("status"), Json::Str(String::from("active"))),
        (String::from("isactive"), Json::Bool(true)),
        (String::from("force_active"), Json::Bool(false)),
        (String::from("expiry_date"), Json::Null),
        (String::from("grace_until"), Json::Str(String::from("2031-01-01"))),
        (String::from("vsc_id_number"), Json::UInt(2540075)),
        (String::from("home_directory"), Json::Str(String::from("/home"))),
        (String::from("data_directory"), Json::Str(String::from("/data"))),
        (String::from("scratch_directory"), Json::Str(String::from("/scratch"))),
        (String::from("login_shell"), Json::Str(String::from("/bin/bash"))),
        (String::from("broken"), Json::Bool(false)),
        (String::from("email"), Json::Str(String::from("jane@example.org"))),
        (
            String::from("research_field"),
            Json::Arr(vec![Json::Str(String::from("unknown"))]),
        ),
        (String::from("create_timestamp"), Json::Str(String::from("2014-04-23T09:11:22Z"))),
        (String::from("person"), person),
    ]
}

#[test]
fn decode_accepts_any_member_order_and_extra_members() {
    let mut ms = full_account_members();
    ms.push((String::from("home_on_scratch"), Json::Bool(false)));
    ms.reverse();
    ms.push((String::from("not_in_the_model"), Json::UInt(7)));
    let account = account_of_json(&Json::Obj(ms)).expect("account decodes");
    assert_eq!(account.vsc_id, "vsc40075");
    assert_eq!(account.expiry_date, None);
    assert_eq!(account.grace_until, Some(String::from("2031-01-01")));
    let re = render_pretty(&account_to_json(&account));
    assert!(!re.contains("not_in_the_model"));
}

#[test]
fn decode_missing_member_fails() {
    // home_on_scratch is left out entirely
    let ms = full_account_members();
    let r = account_of_json(&Json::Obj(ms));
    assert_eq!(
        r,
        Err(ClientError::DecodeError { field: String::from("home_on_scratch") })
    );
}

#[test]
fn decode_unknown_status_fails() {
    let mut ms = full_account_members();
    ms.push((String::from("home_on_scratch"), Json::Bool(false)));
    for m in ms.iter_mut() {
        if m.0 == "status" {
            m.1 = Json::Str(String::from("zombie"));
        }
    }
    let r = account_of_json(&Json::Obj(ms));
    assert_eq!(r, Err(ClientError::DecodeError { field: String::from("status") }));
}

#[test]
fn decode_type_mismatch_fails() {
    let mut ms = full_account_members();
    ms.push((String::from("home_on_scratch"), Json::Bool(false)));
    for m in ms.iter_mut() {
        if m.0 == "vsc_id_number" {
            m.1 = Json::Str(String::from("2540075"));
        }
    }
    let r = account_of_json(&Json::Obj(ms));
    assert_eq!(
        r,
        Err(ClientError::DecodeError { field: String::from("vsc_id_number") })
    );
}

#[test]
fn decode_vo_fairshare_range() {
    let mk = |fairshare: Json| {
        Json::Obj(vec![
            (String::from("vsc_id"), Json::Str(String::from("gvo00003"))),
            (String::from("status"), Json::Str(String::from("active"))),
            (String::from("vsc_id_number"), Json::UInt(2640010)),
            (
                String::from("institute"),
                Json::Obj(vec![(String::from("name"), Json::Str(String::from("gent")))]),
            ),
            (String::from("fairshare"), fairshare),
            (String::from("data_path"), Json::Str(String::from("/data"))),
            (String::from("scratch_path"), Json::Str(String::from("/scratch"))),
            (String::from("description"), Json::Str(String::from("group"))),
            (String::from("members"), Json::Arr(vec![])),
            (String::from("moderators"), Json::Arr(vec![])),
        ])
    };
    let ok = vo_of_json(&mk(Json::UInt(u32::MAX as u64))).expect("fairshare at the limit decodes");
    assert_eq!(ok.fairshare, u32::MAX);
    let too_big = vo_of_json(&mk(Json::UInt(u32::MAX as u64 + 1)));
    assert_eq!(
        too_big,
        Err(ClientError::DecodeError { field: String::from("fairshare") })
    );
}

use iciaws_cli::base64::{base64_decode, base64_encode};
use iciaws_cli::handlers::get_version;
use iciaws_cli::keys::{
    expires_in, extract_id, format_decimal_i32, format_lower_hex, gen_nanoid, gen_pk, make_pk,
    this_year, timestamp_millis, timestamp_secs, timextamp_long, timextamp_short,
};
use iciaws_cli::project::{
    check_project_name, classify_project_name, decode_template_file, project_name_regex,
    render_embedded_template, render_template, render_template_file, service_labels, services_from_selection,
    CompiledRegex, NameCheck, SelectionError,
};
use iciaws_cli::scaffold::{prune_services, substitute};
use iciaws_cli::template_files::get_template_files;
use iciaws_cli::user::{user_update_fields, JsonField, UpdateUserError, User};

fn sample_user(pk: Option<&str>, sk: Option<&str>) -> User {
    User {
        pk: pk.map(|s| s.to_string()),
        sk: sk.map(|s| s.to_string()),
        email: "a@b.c".to_string(),
        name: "Ann".to_string(),
        role: "admin".to_string(),
        given_name: None,
        family_name: None,
        picture: None,
        status: None,
        created: None,
    }
}

// ── base64 ──

#[test]
fn base64_encode_known_values() {
    assert_eq!(base64_encode(b""), "");
    assert_eq!(base64_encode(b"f"), "Zg==");
    assert_eq!(base64_encode(b"fo"), "Zm8=");
    assert_eq!(base64_encode(b"foo"), "Zm9v");
    assert_eq!(base64_encode(b"foobar"), "Zm9vYmFy");
    assert_eq!(base64_encode(&[0xff, 0xfe, 0x00]), "//4A");
}

#[test]
fn base64_decode_known_values() {
    assert_eq!(base64_decode("Zm9vYmFy"), b"foobar".to_vec());
    assert_eq!(base64_decode("Zg=="), b"f".to_vec());
    assert_eq!(base64_decode("Zm8="), b"fo".to_vec());
    assert_eq!(base64_decode(""), Vec::<u8>::new());
}

#[test]
fn base64_decode_skips_foreign_bytes() {
    assert_eq!(base64_decode("Zm9v\nYmFy"), b"foobar".to_vec());
    assert_eq!(base64_decode("Z m 9 v"), b"foo".to_vec());
    assert_eq!(base64_decode("Zé9v"), base64_decode("Z9v"));
    // A lone sextet gives no byte.
    assert_eq!(base64_decode("Z"), Vec::<u8>::new());
}

#[test]
fn base64_roundtrip_all_byte_values() {
    let data: Vec<u8> = (0..=255u8).collect();
    for len in 0..data.len() {
        let encoded = base64_encode(&data[..len]);
        assert_eq!(base64_decode(&encoded), data[..len].to_vec());
    }
}

// ── substitution and pruning ──

#[test]
fn substitute_replaces_every_occurrence() {
    assert_eq!(
        substitute("$NAME$/$NAME$ __DESCRIPTION__", "api", "d"),
        "api/api d"
    );
    assert_eq!(substitute("no placeholders here", "api", "d"), "no placeholders here");
    assert_eq!(substitute("$$NAME$$", "x", "d"), "$x$");
    assert_eq!(substitute("", "x", "d"), "");
}

#[test]
fn substitute_runs_passes_in_order() {
    // The description pass runs last, so a name that spells its placeholder is replaced too.
    assert_eq!(substitute("$NAME$", "__DESCRIPTION__", "d"), "d");
}

#[test]
fn prune_keeps_everything_when_all_selected() {
    let content = "a\r\niciaws_sns = 1\nlet c = get_sns_client();\n\nend\n";
    let all = ["iciaws_s3", "iciaws_ses", "iciaws_sns"];
    assert_eq!(prune_services(content, &all), "a\niciaws_sns = 1\nlet c = get_sns_client();\n\nend");
}

#[test]
fn prune_removes_each_marker_kind() {
    let content = "  iciaws_sns = { git = \"x\" }\nuse iciaws_sns/mod;\nput_addon(\"sns\", c);\nlet c = get_sns_client();\nkeep me\nsns plain";
    assert_eq!(prune_services(content, &["iciaws_s3"]), "keep me\nsns plain");
}

#[test]
fn prune_line_endings() {
    assert_eq!(prune_services("", &[]), "");
    assert_eq!(prune_services("x\r", &[]), "x\r");
    assert_eq!(prune_services("x\r\r\ny", &[]), "x\r\ny");
    assert_eq!(prune_services("\n", &[]), "");
    assert_eq!(prune_services("\n\n", &[]), "\n");
}

#[test]
fn prune_trims_unicode_white_space_before_crate_name() {
    assert_eq!(prune_services("\u{3000}iciaws_ses = 1\nok", &[]), "ok");
    assert_eq!(prune_services("x iciaws_ses = 1\nok", &[]), "x iciaws_ses = 1\nok");
}

// ── template rendering ──

#[test]
fn template_paths_are_listed() {
    let files = get_template_files();
    let names: Vec<&str> = files.iter().map(|(n, _)| *n).collect();
    assert_eq!(
        names,
        vec![
            "src/common/utils.rs",
            "src/handlers/users.rs",
            "src/handlers/versions.rs",
            "src/main.rs",
            "src/models/user.rs",
            "src/routes.rs",
            "tests/versions_test.rs",
        ]
    );
}

#[test]
fn render_main_rs_drops_unselected_clients() {
    let files = get_template_files();
    let main = files.iter().find(|(n, _)| *n == "src/main.rs").unwrap();
    let out = render_template_file(&main.1, "myapi", "desc", &["iciaws_s3"]).unwrap();
    assert!(out.contains("get_s3_client"));
    assert!(!out.contains("get_ses_client"));
    assert!(!out.contains("get_sns_client"));
    assert!(out.contains("get_dynamo_client"));
}

#[test]
fn render_replaces_project_name_in_tests() {
    let files = get_template_files();
    let rendered = render_template(&files, "myapi", "desc", &["iciaws_s3", "iciaws_ses", "iciaws_sns"]).unwrap();
    assert_eq!(rendered.len(), files.len());
    let test_file = rendered.iter().find(|(n, _)| n == "tests/versions_test.rs").unwrap();
    assert!(test_file.1.contains("use myapi::routes::add_routes;"));
    assert!(!test_file.1.contains("__PROJECT_NAME__"));
}

#[test]
fn decode_rejects_invalid_utf8() {
    // "/w==" decodes to the single byte 0xff.
    assert_eq!(decode_template_file("/w=="), None);
    assert_eq!(decode_template_file("aGk="), Some("hi".to_string()));
    assert_eq!(render_template_file("/w==", "a", "b", &[]), None);
    assert!(render_template(&[("ok.txt", "aGk=".to_string()), ("bad.txt", "/w==".to_string())], "a", "b", &[]).is_none());
    let ok = render_template(&[("ok.txt", "aGk=".to_string())], "a", "b", &[]).unwrap();
    assert_eq!(ok, vec![("ok.txt".to_string(), "hi".to_string())]);
}

// ── project names and services ──

#[test]
fn project_name_checks() {
    let re = project_name_regex().expect("the project name pattern compiles");
    assert_eq!(check_project_name("myapi", &re), NameCheck::Valid);
    assert_eq!(check_project_name("my-api_2", &re), NameCheck::Valid);
    assert_eq!(check_project_name("   ", &re), NameCheck::Empty);
    assert_eq!(check_project_name("", &re), NameCheck::Empty);
    assert_eq!(check_project_name("my api", &re), NameCheck::Invalid);
    assert_eq!(check_project_name("-api", &re), NameCheck::Invalid);
    assert_eq!(check_project_name(&"a".repeat(30), &re), NameCheck::Valid);
    assert_eq!(check_project_name(&"a".repeat(31), &re), NameCheck::Invalid);
}

#[test]
fn classify_without_pattern() {
    assert_eq!(classify_project_name(" \t", true), NameCheck::Empty);
    assert_eq!(classify_project_name("x", false), NameCheck::Invalid);
    assert_eq!(classify_project_name("x", true), NameCheck::Valid);
}

#[test]
fn regex_compile_failure_is_reported() {
    assert!(CompiledRegex::new("(").is_none());
    assert!(CompiledRegex::new("^a$").is_some());
}

#[test]
fn service_selection() {
    assert_eq!(service_labels(), vec!["S3", "SES", "SNS"]);
    assert_eq!(services_from_selection(&[]), Err(SelectionError::NothingSelected));
    assert_eq!(SelectionError::NothingSelected.message(), "Please select at least one service.");
    assert_eq!(services_from_selection(&[2, 0]), Ok(vec!["iciaws_sns", "iciaws_s3"]));
}

// ── keys ──

#[test]
fn make_and_extract_pk() {
    assert_eq!(make_pk("User", "1234"), "User#1234");
    assert_eq!(extract_id("User#1234"), "1234");
    assert_eq!(extract_id("a123"), "a123");
    assert_eq!(extract_id("a#b#c"), "b#c");
    assert_eq!(extract_id(&make_pk("Item", "x#y")), "x#y");
}

#[test]
fn hex_and_decimal_formatting() {
    assert_eq!(format_lower_hex(0), "0");
    assert_eq!(format_lower_hex(255), "ff");
    assert_eq!(format_lower_hex(0x65a1b2c3), "65a1b2c3");
    assert_eq!(format_lower_hex(-1), "ffffffffffffffff");
    assert_eq!(format_decimal_i32(0), "0");
    assert_eq!(format_decimal_i32(2024), "2024");
    assert_eq!(format_decimal_i32(-5), "-5");
    assert_eq!(format_decimal_i32(i32::MIN), "-2147483648");
}

#[test]
fn clock_based_helpers() {
    let secs = timestamp_secs();
    assert!(secs > 1_600_000_000);
    let millis = timestamp_millis();
    assert!(millis >= secs * 1000);
    let short = timextamp_short();
    let parsed = i64::from_str_radix(&short, 16).unwrap();
    assert!(parsed >= secs && parsed < secs + 100);
    let long = timextamp_long();
    assert!(i64::from_str_radix(&long, 16).unwrap() >= millis);
    let pk = gen_pk("User");
    assert!(pk.starts_with("User#"));
    assert!(i64::from_str_radix(&extract_id(&pk), 16).unwrap() >= secs);
    let year: i32 = this_year().parse().unwrap();
    assert!(year >= 2024);
    let later = expires_in(2);
    assert!(later >= secs + 7200 && later < secs + 7300);
    assert!(expires_in(-1) < secs);
}

#[test]
fn nanoid_length_and_alphabet() {
    let id = gen_nanoid(5);
    assert_eq!(id.len(), 5);
    let long = gen_nanoid(42);
    assert_eq!(long.chars().count(), 42);
    assert!(long.chars().all(|c| c.is_ascii_alphanumeric() || c == '_' || c == '-'));
}

#[test]
fn version_message() {
    assert_eq!(get_version(), "0.0.1");
}

// ── user model ──

#[test]
fn user_keys() {
    assert_eq!(User::makepk(Some("42")), "User#42");
    assert_eq!(User::makepk(None), "User");
    assert_eq!(User::makesk(Some("42")), "#42");
    assert_eq!(User::makesk(None), "#");
}

#[test]
fn user_uid() {
    assert_eq!(sample_user(Some("User#42"), Some("#")).uid(), "42");
    assert_eq!(sample_user(Some("User"), Some("#7")).uid(), "7");
    assert_eq!(sample_user(None, Some("#9")).uid(), "9");
    assert_eq!(sample_user(Some("Other#1"), None).uid(), "");
    assert_eq!(sample_user(None, None).uid(), "");
    let u = sample_user(Some(&User::makepk(Some("abc"))), Some(&User::makesk(None)));
    assert_eq!(u.uid(), "abc");
}

#[test]
fn user_roles() {
    let u = sample_user(None, None);
    assert!(u.iam("admin"));
    assert!(!u.iam("host"));
}

#[test]
fn user_default_keys() {
    let mut u = sample_user(None, None);
    u.set_keys_for_uid(Some("u1"));
    assert_eq!(u.pk.as_deref(), Some("User#u1"));
    assert_eq!(u.sk.as_deref(), Some("#"));
    assert_eq!(u.name, "Ann");
    let mut v = sample_user(None, None);
    v.set_keys_for_uid(None);
    let pk = v.pk.clone().unwrap();
    assert!(pk.starts_with("User#"));
    assert!(i64::from_str_radix(&pk["User#".len()..], 16).is_ok());
    assert_eq!(v.sk.as_deref(), Some("#"));
}

#[test]
fn user_scan_params() {
    let p = User::user_scan_params();
    assert_eq!(p.filter, "begins_with(#pk, :pkv)");
    assert_eq!(p.names, vec![("#pk".to_string(), "pk".to_string())]);
    assert_eq!(p.values, vec![(":pkv".to_string(), "User#".to_string())]);
}

fn field(key: &str, text: Option<&str>) -> JsonField {
    JsonField { key: key.to_string(), text: text.map(|t| t.to_string()) }
}

#[test]
fn user_update_plans() {
    let fields = user_update_fields();
    assert_eq!(fields, vec!["name", "given_name", "family_name", "title", "role"]);
    assert_eq!(
        User::plan_update("7", None, &fields).err(),
        Some(UpdateUserError::NotAnObject)
    );
    let body = vec![field("email", Some("x@y")), field("title", None)];
    assert_eq!(
        User::plan_update("7", Some(&body), &fields).err(),
        Some(UpdateUserError::NoAttributes)
    );
    assert_eq!(UpdateUserError::NotAnObject.message(), "request body must be a JSON object");
    assert_eq!(UpdateUserError::NoAttributes.message(), "No attributes to update");
    let body = vec![
        field("role", Some("host")),
        field("name", Some("Bo")),
        field("title", None),
        field("name", Some("ignored")),
    ];
    let plan = User::plan_update("7", Some(&body), &fields).ok().unwrap();
    assert_eq!(plan.pk, "User#7");
    assert_eq!(plan.sk, "#");
    assert_eq!(
        plan.updates,
        vec![("name".to_string(), "Bo".to_string()), ("role".to_string(), "host".to_string())]
    );
}

#[test]
fn user_default_keys_from_body() {
    let mut u = sample_user(None, None);
    let body = vec![field("name", Some("Ann")), field("uid", Some("abc"))];
    u.set_default_keys(Some(&body));
    assert_eq!(u.pk.as_deref(), Some("User#abc"));
    assert_eq!(u.sk.as_deref(), Some("#"));
    let mut v = sample_user(None, None);
    let body = vec![field("uid", None)];
    v.set_default_keys(Some(&body));
    assert!(v.pk.as_deref().unwrap().starts_with("User#"));
    let mut w = sample_user(None, None);
    w.set_default_keys(None);
    assert!(w.pk.as_deref().unwrap().starts_with("User#"));
    assert_eq!(w.sk.as_deref(), Some("#"));
}

#[test]
fn prune_removes_use_lines_of_unselected_crates() {
    assert_eq!(prune_services("use iciaws_ses::SesClient;", &["iciaws_s3"]), "");
    assert_eq!(
        prune_services("use iciaws_ses::SesClient;
use iciaws_s3::S3Client;", &["iciaws_s3"]),
        "use iciaws_s3::S3Client;"
    );
}

#[test]
fn prune_twice_is_prune_once() {
    let content = "use iciaws_sns::X;
keep
iciaws_ses = 1
last";
    let once = prune_services(content, &["iciaws_s3"]);
    assert_eq!(once, "keep\nlast");
    assert_eq!(prune_services(&once, &["iciaws_s3"]), once);
}

#[test]
fn template_contents_decode_to_sources() {
    for (name, b64) in get_template_files() {
        let text = decode_template_file(&b64).expect("template file is UTF-8");
        assert!(!text.is_empty(), "{} is empty", name);
        assert_eq!(base64_encode(text.as_bytes()), b64);
    }
}

#[test]
fn embedded_template_renders_every_file() {
    let out = render_embedded_template("myapi", "desc", &["iciaws_ses"]);
    let files = get_template_files();
    assert_eq!(out.len(), files.len());
    for ((path, text), (name, _)) in out.iter().zip(files.iter()) {
        assert_eq!(path, name);
        assert!(!text.contains("get_s3_client"));
        assert!(!text.contains("__PROJECT_NAME__"));
    }
}
